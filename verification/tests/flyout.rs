use muri::flyout::{common_flyout_prefix, next_flyout, HoverTarget};

#[test]
fn flyout_reconcile_switches_to_shallower_sibling() {
    let current = [1, 2, 3];
    let target = [1, 5];
    let common = common_flyout_prefix(&current, &target);
    assert_eq!(common, 1, "only the shared level-0 parent is kept");
    assert_eq!(&current[common..], &[2, 3]);
    assert_eq!(&target[common..], &[5]);
}

#[test]
fn flyout_reconcile_rehovering_open_parent_keeps_children() {
    let current = [1, 2];
    let target = [1, 2];
    let common = common_flyout_prefix(&current, &target);
    assert_eq!(common, 2);
    assert!(current[common..].is_empty(), "no deeper level is closed");
    assert!(target[common..].is_empty(), "no level is re-pushed");
}

#[test]
fn flyout_reconcile_switching_top_sibling_and_collapsing() {
    assert_eq!(common_flyout_prefix(&[1, 2], &[5]), 0);
    assert_eq!(common_flyout_prefix(&[1], &[1, 2]), 1);
    assert_eq!(common_flyout_prefix(&[1, 2, 3], &[]), 0);
    assert_eq!(common_flyout_prefix(&[], &[1, 2]), 0);
}

#[test]
fn the_common_prefix_is_symmetric() {
    assert_eq!(common_flyout_prefix(&[4, 7, 1], &[4, 7, 2, 9]), 2);
    assert_eq!(common_flyout_prefix(&[4, 7, 2, 9], &[4, 7, 1]), 2);
}

#[test]
fn hovering_a_parent_row_opens_its_flyout() {
    assert_eq!(next_flyout(&[], HoverTarget::ParentRow { panel: 0, index: 3 }), vec![3]);
    assert_eq!(next_flyout(&[3], HoverTarget::ParentRow { panel: 1, index: 0 }), vec![3, 0]);
}

#[test]
fn hovering_another_parent_replaces_the_levels_from_there_on() {
    assert_eq!(next_flyout(&[3, 0, 2], HoverTarget::ParentRow { panel: 1, index: 5 }), vec![3, 5]);
}

#[test]
fn hovering_an_open_parent_keeps_its_children() {
    assert_eq!(next_flyout(&[3, 0, 2], HoverTarget::ParentRow { panel: 0, index: 3 }), vec![3, 0, 2]);
}

#[test]
fn hovering_a_plain_row_closes_the_deeper_levels() {
    assert_eq!(next_flyout(&[3, 0, 2], HoverTarget::OtherRow { panel: 1 }), vec![3]);
    assert_eq!(next_flyout(&[3], HoverTarget::OtherRow { panel: 4 }), vec![3]);
}

#[test]
fn the_body_of_a_flyout_keeps_everything_and_the_desktop_nothing() {
    assert_eq!(next_flyout(&[3, 0], HoverTarget::Flyout), vec![3, 0]);
    assert_eq!(next_flyout(&[3, 0], HoverTarget::Outside), Vec::<usize>::new());
}

#[test]
fn a_hover_settles_at_once() {
    let target = HoverTarget::ParentRow { panel: 1, index: 5 };
    let once = next_flyout(&[3, 0, 2], target);
    assert_eq!(next_flyout(&once, target), once);
}
