use muri::error::Error;
use muri::flyout::HoverTarget;
use muri::keynav::{FlyoutFocus, NavKey};
use muri::menu::{Menu, MenuId, Row};
use muri::session::{deepest_panel, AxAction, Effect, Session, WindowKind};

/// Three rows; the second opens a menu whose second row opens another one.
fn menu() -> Menu {
    let deep = Menu::new().row(Row::new("deep").label("Deep"));
    let inner = Menu::new()
        .row(Row::new("inner").label("Inner"))
        .submenu(Row::new("").label("Deeper"), deep);
    Menu::new()
        .row(Row::new("first").label("First"))
        .submenu(Row::new("").label("Sub"), inner)
        .row(Row::new("last").label("Last"))
}

fn rows_of(menu: &Menu) -> Vec<usize> {
    (0..menu.items.len()).collect()
}

/// Performs the effects as a windowing system would that opens every window. Returns the ids that
/// were dispatched and the levels whose windows were closed.
fn perform(s: &mut Session, effects: Vec<Effect>) -> (Vec<String>, Vec<usize>) {
    let mut ids = Vec::new();
    let mut closed = Vec::new();
    for e in effects {
        match e {
            Effect::Open(parent) => {
                if let Some(rows) = s.plan_open(parent).map(rows_of) {
                    s.opened(parent, rows);
                }
            }
            Effect::Select { level, row } => s.select(level, row),
            Effect::Dispatch(id) => ids.push(id.as_str().to_string()),
            Effect::Close(level) => closed.push(level),
            Effect::Redraw(_) | Effect::RedrawAll | Effect::Sync => {}
        }
    }
    (ids, closed)
}

fn open() -> Session {
    let mut s = Session::new(menu());
    s.popup_opened(vec![0, 1, 2]);
    s
}

fn hovered(s: &Session) -> Vec<Option<usize>> {
    let f = s.current_focus();
    let mut all = vec![f.top];
    all.extend(f.flyout.iter().map(|x| x.child));
    all
}

#[test]
fn hovering_opens_and_closes_flyouts() {
    let mut s = open();
    let e = s.on_motion(Some((0, Some(1))));
    assert_eq!(e, vec![Effect::Open(1), Effect::Redraw(0)]);
    perform(&mut s, e);
    assert_eq!(s.flyout_stack(), vec![1]);
    let e = s.on_motion(Some((1, Some(1))));
    perform(&mut s, e);
    assert_eq!(s.flyout_stack(), vec![1, 1]);
    assert_eq!(hovered(&s), vec![Some(1), Some(1), None]);
    // Back on the first row everything closes, the deepest first.
    let e = s.on_motion(Some((0, Some(0))));
    assert_eq!(e, vec![Effect::Close(2), Effect::Close(1), Effect::Redraw(0)]);
    assert_eq!(s.flyout_stack(), Vec::<usize>::new());
}

#[test]
fn resting_on_an_open_parent_asks_for_nothing() {
    let mut s = open();
    let e = s.on_motion(Some((0, Some(1))));
    perform(&mut s, e);
    assert!(s.on_motion(Some((0, Some(1)))).is_empty());
    assert!(s.on_motion(Some((1, None))) == vec![]);
    assert_eq!(s.flyout_stack(), vec![1]);
}

#[test]
fn leaving_every_panel_closes_the_flyouts() {
    let mut s = open();
    let e = s.on_motion(Some((0, Some(1))));
    perform(&mut s, e);
    assert_eq!(s.on_motion(None), vec![Effect::Close(1)]);
    assert!(s.popup.is_some());
}

#[test]
fn a_window_of_its_own_closes_flyouts_between_the_rows() {
    let mut s = open();
    let e = s.on_cursor(0, Some(1));
    assert_eq!(e, vec![Effect::Redraw(0), Effect::Open(1), Effect::Sync]);
    perform(&mut s, e);
    let e = s.on_cursor(1, None);
    assert_eq!(e, vec![Effect::Close(1), Effect::Sync]);
    assert!(s.on_cursor(4, Some(0)).is_empty());
}

#[test]
fn the_pointer_is_classified_by_panel_and_row() {
    let mut s = open();
    let e = s.on_motion(Some((0, Some(1))));
    perform(&mut s, e);
    assert_eq!(s.hover_target(0, Some(1)), HoverTarget::ParentRow { panel: 0, index: 1 });
    assert_eq!(s.hover_target(0, Some(0)), HoverTarget::OtherRow { panel: 0 });
    assert_eq!(s.hover_target(0, None), HoverTarget::OtherRow { panel: 0 });
    assert_eq!(s.hover_target(1, None), HoverTarget::Flyout);
    assert_eq!(s.hover_target(2, None), HoverTarget::Outside);
}

#[test]
fn a_click_opens_or_dispatches() {
    let mut s = open();
    let r = s.on_click(0, Some(1), None);
    assert_eq!(r.effects, vec![Effect::Open(1)]);
    assert!(!r.dismissed);
    perform(&mut s, r.effects);
    let r = s.on_click(1, Some(0), Some(MenuId::new("inner")));
    assert_eq!(r.effects, vec![Effect::Dispatch(MenuId::new("inner"))]);
    assert!(r.dismissed);
    // A row without an id dismisses without dispatching.
    let r = s.on_click(0, Some(0), Some(MenuId::none()));
    assert!(r.effects.is_empty() && r.dismissed);
    // No row at all: nothing.
    let r = s.on_click(0, None, None);
    assert!(r.effects.is_empty() && !r.dismissed);
    // A panel that is not open: nothing.
    let r = s.on_click(5, Some(0), Some(MenuId::new("x")));
    assert!(r.effects.is_empty() && !r.dismissed);
}

#[test]
fn clicking_a_submenu_row_replaces_the_deeper_flyouts() {
    let mut s = open();
    let e = s.apply_flyout_stack(&[1, 1]);
    perform(&mut s, e);
    let r = s.on_click(0, Some(1), None);
    assert_eq!(r.effects, vec![Effect::Close(2), Effect::Close(1), Effect::Open(1)]);
    perform(&mut s, r.effects);
    assert_eq!(s.flyout_stack(), vec![1]);
}

#[test]
fn reconciling_reaches_the_target_and_keeps_what_is_shared() {
    let mut s = open();
    let e = s.apply_flyout_stack(&[1, 1]);
    assert_eq!(e, vec![Effect::Open(1), Effect::Open(1)]);
    perform(&mut s, e);
    s.select(1, Some(0));
    let e = s.apply_flyout_stack(&[1]);
    assert_eq!(e, vec![Effect::Close(2)]);
    perform(&mut s, e);
    let e = s.apply_flyout_stack(&[1, 1]);
    assert_eq!(e, vec![Effect::Open(1)]);
    perform(&mut s, e);
    assert_eq!(s.flyout_stack(), vec![1, 1]);
    // The first flyout was never touched.
    assert_eq!(hovered(&s), vec![None, Some(0), None]);
}

#[test]
fn a_flyout_opens_only_from_a_submenu_row_that_was_laid_out() {
    let mut s = Session::new(menu());
    assert!(s.plan_open(1).is_none(), "no popup");
    s.popup_opened(vec![0, 2]);
    assert!(s.plan_open(1).is_none(), "the row has no place");
    s.laid_out(0, vec![0, 1, 2]);
    assert!(s.plan_open(0).is_none(), "no submenu row");
    assert!(s.plan_open(9).is_none(), "no row at all");
    assert_eq!(s.plan_open(1).unwrap().items.len(), 2);
}

#[test]
fn keys_move_the_highlights() {
    let mut s = open();
    let r = s.on_key_aloud(NavKey::Down);
    assert_eq!(r.effects, vec![Effect::RedrawAll, Effect::Sync]);
    perform(&mut s, r.effects);
    assert_eq!(hovered(&s), vec![Some(0)]);
    let r = s.on_key_aloud(NavKey::Down);
    perform(&mut s, r.effects);
    let r = s.on_key_aloud(NavKey::Right);
    assert_eq!(
        r.effects,
        vec![
            Effect::Open(1),
            Effect::Select { level: 1, row: Some(0) },
            Effect::RedrawAll,
            Effect::Sync
        ]
    );
    perform(&mut s, r.effects);
    assert_eq!(hovered(&s), vec![Some(1), Some(0)]);
    let r = s.on_key_aloud(NavKey::End);
    perform(&mut s, r.effects);
    assert_eq!(hovered(&s), vec![Some(1), Some(1)]);
    let r = s.on_key_aloud(NavKey::Left);
    assert_eq!(r.effects, vec![Effect::Close(1), Effect::RedrawAll, Effect::Sync]);
    assert_eq!(hovered(&s), vec![Some(1)]);
    assert!(s.on_key_aloud(NavKey::Left).effects.is_empty());
}

#[test]
fn activating_by_key_dispatches_and_dismisses() {
    let mut s = open();
    s.select(0, Some(2));
    let r = s.on_key(NavKey::Activate);
    assert!(r.dismissed);
    assert_eq!(perform(&mut s, r.effects).0, vec!["last"]);
    let r = s.on_key(NavKey::Escape);
    assert!(r.dismissed && r.effects.is_empty());
}

#[test]
fn dismissing_closes_each_window_once() {
    let mut s = open();
    let e = s.apply_flyout_stack(&[1, 1]);
    perform(&mut s, e);
    let e = s.close_popup();
    assert_eq!(perform(&mut s, e).1, vec![2, 1, 0]);
    assert!(s.close_popup().is_empty(), "closing again closes nothing");
}

#[test]
fn a_new_menu_keeps_the_popup_without_flyouts() {
    let mut s = open();
    let e = s.apply_flyout_stack(&[1]);
    perform(&mut s, e);
    let e = s.set_menu(Menu::new().row(Row::new("only")));
    assert_eq!(e, vec![Effect::Close(1), Effect::Redraw(0), Effect::Sync]);
    assert_eq!(s.menu.items.len(), 1);
    let mut closed = Session::new(menu());
    assert!(closed.set_menu(Menu::new()).is_empty());
    assert!(closed.repaint_open_popup().is_empty());
}

#[test]
fn assistive_focus_opens_the_way_to_a_row() {
    let mut s = open();
    let path = s.absolute_path(0, &[1, 1, 0]);
    let r = s.apply_a11y(&path, AxAction::Focus);
    assert!(!r.dismissed);
    perform(&mut s, r.effects);
    assert_eq!(s.flyout_stack(), vec![1, 1]);
    assert_eq!(hovered(&s), vec![Some(1), None, Some(0)]);
    // Relative to the first flyout.
    assert_eq!(s.absolute_path(1, &[0]), vec![1, 0]);
}

#[test]
fn assistive_clicks_open_or_dispatch() {
    let mut s = open();
    let r = s.apply_a11y(&[1], AxAction::Click);
    assert!(!r.dismissed);
    perform(&mut s, r.effects);
    assert_eq!(s.flyout_stack(), vec![1]);
    let r = s.apply_a11y(&[1, 0], AxAction::Click);
    assert!(r.dismissed);
    assert_eq!(r.effects, vec![Effect::Dispatch(MenuId::new("inner"))]);
    let r = s.apply_a11y(&[9], AxAction::Click);
    assert!(r.dismissed && r.effects.is_empty());
    let r = s.apply_a11y(&[], AxAction::Click);
    assert!(!r.dismissed && r.effects.is_empty());
    let r = s.apply_a11y(&[0], AxAction::Other);
    assert!(!r.dismissed && r.effects.is_empty());
}

#[test]
fn each_panel_reports_its_own_focus() {
    let mut s = open();
    let e = s.apply_flyout_stack(&[1, 1]);
    perform(&mut s, e);
    s.select(0, Some(1));
    s.select(1, Some(1));
    s.select(2, Some(0));
    let top = s.focus_at(0).unwrap();
    assert_eq!(top.top, Some(1));
    assert_eq!(top.flyout.len(), 2);
    let first = s.focus_at(1).unwrap();
    assert_eq!(first.top, Some(1));
    assert_eq!(first.flyout, vec![FlyoutFocus { parent: 1, child: Some(0) }]);
    let second = s.focus_at(2).unwrap();
    assert_eq!(second.top, Some(0));
    assert!(second.flyout.is_empty());
    assert!(s.focus_at(3).is_none());
}

#[test]
fn the_deepest_panel_under_the_pointer_wins() {
    assert_eq!(deepest_panel(&[true, false, true, false]), Some(2));
    assert_eq!(deepest_panel(&[true, false]), Some(0));
    assert_eq!(deepest_panel(&[false]), None);
    assert_eq!(deepest_panel(&[]), None);
}

#[test]
fn a_session_must_open_its_popup() {
    assert_eq!(
        Session::new(menu()).require_open(),
        Err(Error::Platform("failed to open the popup window".to_string()))
    );
    assert_eq!(open().require_open(), Ok(()));
}

#[test]
fn windows_know_their_level() {
    assert_eq!(WindowKind::Popup.menu_level(), 0);
    assert_eq!(WindowKind::Flyout(2).menu_level(), 3);
    assert_eq!(WindowKind::at_level(0), WindowKind::Popup);
    assert_eq!(WindowKind::at_level(3), WindowKind::Flyout(2));
}

#[test]
fn a_level_is_painted_from_its_own_menu() {
    let mut s = open();
    let e = s.on_click(0, Some(1), None);
    perform(&mut s, e.effects);
    assert_eq!(s.menu_to_paint(0).map(|m| m.items.len()), Some(3));
    assert_eq!(s.menu_to_paint(1).map(|m| m.items.len()), Some(2));
    assert!(s.menu_to_paint(2).is_none());
    s.close_popup();
    assert!(s.menu_to_paint(0).is_none());
}

#[test]
fn every_activation_dispatches_alike() {
    let selected = || {
        let mut s = open();
        s.select(0, Some(2));
        s
    };
    let (mut a, mut b, mut c) = (selected(), selected(), selected());
    let outcomes = [
        a.on_click(0, Some(2), Some(MenuId::new("last"))),
        b.on_key(NavKey::Activate),
        c.apply_a11y(&[2], AxAction::Click),
    ];
    for r in outcomes {
        assert!(r.dismissed);
        assert_eq!(r.effects, vec![Effect::Dispatch(MenuId::new("last"))]);
    }
}

#[test]
fn every_opening_builds_the_same_stack() {
    let selected = || {
        let mut s = open();
        s.select(0, Some(1));
        s
    };
    let mut by_hover = selected();
    let e = by_hover.on_motion(Some((0, Some(1))));
    perform(&mut by_hover, e);
    let mut by_click = selected();
    let e = by_click.on_click(0, Some(1), None).effects;
    perform(&mut by_click, e);
    let mut by_key = selected();
    let e = by_key.on_key(NavKey::Right).effects;
    perform(&mut by_key, e);
    for s in [by_hover, by_click, by_key] {
        assert_eq!(s.flyout_stack(), vec![1]);
    }
}

#[test]
fn keys_report_the_focus_only_where_somebody_listens() {
    let mut s = open();
    assert_eq!(s.on_key(NavKey::Down).effects, vec![Effect::RedrawAll]);
    let mut s = open();
    let r = s.on_key_aloud(NavKey::Down);
    assert_eq!(r.effects, vec![Effect::RedrawAll, Effect::Sync]);
    // Nothing happened, or the menu goes away: there is no focus to report.
    assert!(s.on_key_aloud(NavKey::Left).effects.is_empty());
    let r = s.on_key_aloud(NavKey::Activate);
    assert!(r.dismissed);
    assert_eq!(r.effects, vec![Effect::Dispatch(MenuId::new("first"))]);
    assert!(s.on_key_aloud(NavKey::Escape).effects.is_empty());
}
