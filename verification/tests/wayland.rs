use muri::error::Error;
use muri::menu::{Menu, MenuId, Row};
use muri::session::{Effect, PointerHit};
use muri::wayland::{layer_shell_listed, Buffer, Configured, PopupState, BTN_LEFT, BTN_RIGHT};

fn menu() -> Menu {
    Menu::new()
        .row(Row::new("a").label("A"))
        .submenu(Row::new("").label("B"), Menu::new().row(Row::new("c").label("C")))
}

fn shown() -> PopupState {
    let mut p = PopupState::new(menu());
    let c = p.configure(800, 600);
    assert!(c.open_popup);
    p.has_pool = true;
    p.popup_opened(vec![0, 1]);
    assert!(p.take_redraw());
    p
}

fn hit(level: usize, row: Option<usize>, id: Option<&str>) -> Option<PointerHit> {
    Some(PointerHit {
        level,
        row,
        id: id.map(MenuId::new),
    })
}

#[test]
fn the_first_real_size_opens_the_popup() {
    let mut p = PopupState::new(menu());
    let nothing = Configured { pool_len: None, open_popup: false };
    assert_eq!(p.configure(0, 600), nothing);
    assert_eq!(p.configure(800, 0), nothing);
    assert!(!p.configured);
    assert_eq!(
        p.configure(800, 600),
        Configured { pool_len: Some(800 * 600 * 4), open_popup: true }
    );
    // The memory could not be had: it is asked for again, but the popup opens once.
    assert_eq!(
        p.configure(10, 10),
        Configured { pool_len: Some(400), open_popup: false }
    );
    p.has_pool = true;
    assert_eq!(p.configure(10, 10), nothing);
}

#[test]
fn drawing_needs_a_size_and_memory() {
    let mut p = PopupState::new(menu());
    assert_eq!(p.buffer(), Ok(None));
    p.configure(800, 600);
    assert_eq!(p.buffer(), Err(Error::Platform("wl_shm pool missing".to_string())));
    p.has_pool = true;
    assert_eq!(
        p.buffer(),
        Ok(Some(Buffer { width: 800, height: 600, stride: 3200 }))
    );
}

#[test]
fn motion_redraws_only_on_a_change() {
    let mut p = shown();
    let m = p.on_motion(hit(0, Some(0), None));
    assert_eq!(m.effects, vec![Effect::Redraw(0)]);
    assert!(m.dirty);
    assert_eq!(p.settle(&m.before, m.dirty), vec![Effect::Sync]);
    assert!(p.take_redraw());
    let m = p.on_motion(hit(0, Some(0), None));
    assert!(m.effects.is_empty() && !m.dirty);
    assert!(p.settle(&m.before, m.dirty).is_empty());
    assert!(!p.needs_redraw);
}

#[test]
fn an_opened_flyout_changes_the_stack_and_a_refused_one_does_not() {
    let resting = || {
        let mut p = shown();
        p.session.select(0, Some(1));
        p
    };
    let mut p = resting();
    let m = p.on_motion(hit(0, Some(1), None));
    assert_eq!(m.effects, vec![Effect::Open(1)]);
    assert!(!m.dirty && !p.needs_redraw);
    // The flyout was not opened.
    assert!(!p.stack_changed(&m.before));
    assert!(p.settle(&m.before, m.dirty).is_empty());
    assert!(!p.needs_redraw);

    let mut p = resting();
    let m = p.on_motion(hit(0, Some(1), None));
    p.flyout_opened(1, vec![0]);
    assert!(p.stack_changed(&m.before));
    assert_eq!(p.settle(&m.before, m.dirty), vec![Effect::Sync]);
    assert!(p.take_redraw());

    // Leaving every panel closes the flyout, which changes the stack too.
    let m = p.on_motion(None);
    assert_eq!(m.effects, vec![Effect::Close(1)]);
    assert_eq!(m.before, vec![1]);
    assert!(p.needs_redraw);
    assert_eq!(p.settle(&m.before, m.dirty), vec![Effect::Sync]);
}

#[test]
fn a_chosen_row_is_dispatched_after_the_popup() {
    let mut p = shown();
    assert!(p.on_press(0x112, hit(0, Some(0), Some("a"))).is_empty());
    assert!(!p.done);
    assert!(p.on_press(BTN_LEFT, hit(0, Some(0), Some("a"))).is_empty());
    assert!(p.done);
    assert_eq!(p.finish(), Some(MenuId::new("a")));
}

#[test]
fn a_row_without_an_id_dismisses_without_a_choice() {
    let mut p = shown();
    p.on_press(BTN_RIGHT, hit(0, Some(0), Some("")));
    assert!(p.done);
    assert_eq!(p.finish(), None);
    let mut p = shown();
    p.on_press(BTN_RIGHT, None);
    assert!(p.done);
    assert_eq!(p.finish(), None);
}

#[test]
fn clicking_a_submenu_row_opens_its_flyout() {
    let mut p = shown();
    assert_eq!(p.on_press(BTN_LEFT, hit(0, Some(1), None)), vec![Effect::Open(1)]);
    assert!(!p.needs_redraw);
    p.flyout_opened(1, vec![0]);
    assert!(p.take_redraw());
    assert_eq!(
        p.on_press(BTN_LEFT, hit(0, Some(1), None)),
        vec![Effect::Close(1), Effect::Open(1)]
    );
    assert!(p.needs_redraw);
}

#[test]
fn keys_navigate_activate_and_dismiss() {
    let mut p = shown();
    assert_eq!(p.on_key(108), vec![Effect::RedrawAll, Effect::Sync]);
    assert!(p.take_redraw());
    assert!(p.on_key(0).is_empty());
    assert!(p.on_key(28).is_empty());
    assert!(p.done);
    assert_eq!(p.finish(), Some(MenuId::new("a")));
    let mut p = shown();
    p.on_key(1);
    assert!(p.done);
    assert_eq!(p.finish(), None);
}

#[test]
fn losing_the_focus_dismisses_once_it_was_held() {
    let mut p = shown();
    p.on_leave();
    assert!(!p.done);
    p.on_enter();
    assert!(p.keyboard_focus && p.had_focus);
    p.on_leave();
    assert!(p.done && !p.keyboard_focus);
}

#[test]
fn a_closed_surface_ends_the_popup() {
    let mut p = shown();
    p.on_closed();
    assert!(p.done);
    assert_eq!(p.finish(), None);
}

#[test]
fn layer_shell_is_found_by_its_full_name() {
    let list = |names: &[&str]| names.iter().map(|n| n.to_string()).collect::<Vec<_>>();
    assert!(layer_shell_listed(&list(&["wl_shm", "zwlr_layer_shell_v1"])));
    assert!(!layer_shell_listed(&list(&["wl_shm", "zwlr_layer_shell_v2"])));
    assert!(!layer_shell_listed(&list(&[])));
}
