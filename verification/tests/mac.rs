use muri::error::Error;
use muri::keynav::NavKey;
use muri::mac::{
    appearance_is_dark, bold_is_distinct, choose_backdrop, choose_font, status_item_text, Backdrop,
    FontChoice, MacApp, MacEffect, MacEvent, MacPlatform, MacSession, MacosAnchor,
};
use muri::menu::{Icon, Menu, MenuId, Row};
use muri::session::{AxAction, Effect, WindowKind};
use muri::tray::{TrayCommand, TrayState};

fn menu() -> Menu {
    Menu::new()
        .row(Row::new("a").label("A"))
        .submenu(Row::new("").label("B"), Menu::new().row(Row::new("c").label("C")))
}

fn open() -> MacSession {
    let mut s = MacSession::new(menu());
    assert_eq!(s.apply_event(MacEvent::TrayClicked), vec![MacEffect::OpenPopup]);
    s.popup_opened(vec![0, 1]);
    assert!(s.watchers);
    focus(&mut s, WindowKind::Popup, true);
    s
}

fn focus(s: &mut MacSession, kind: WindowKind, key: bool) {
    assert!(s.apply_event(MacEvent::FocusChanged { kind, key }).is_empty());
}

fn closing() -> Vec<MacEffect> {
    vec![MacEffect::Menu(Effect::Close(0)), MacEffect::RemoveWatchers]
}

#[test]
fn passing_the_focus_keeps_the_menu() {
    let mut s = open();
    s.session.opened(1, vec![0]);
    focus(&mut s, WindowKind::Popup, false);
    assert!(s.dismiss_armed);
    focus(&mut s, WindowKind::Flyout(0), true);
    let (dismissed, effects) = s.finalize_dismiss();
    assert!(!dismissed && effects.is_empty());
    assert!(s.session.popup.is_some());
}

#[test]
fn giving_up_the_last_focus_dismisses() {
    let mut s = open();
    focus(&mut s, WindowKind::Popup, false);
    let (dismissed, effects) = s.finalize_dismiss();
    assert!(dismissed);
    assert_eq!(effects, closing());
    assert!(s.session.popup.is_none() && !s.watchers && !s.dismiss_armed);
    let (again, effects) = s.finalize_dismiss();
    assert!(!again && effects.is_empty());
}

#[test]
fn a_focus_that_was_never_lost_dismisses_nothing() {
    let mut s = open();
    focus(&mut s, WindowKind::Flyout(0), true);
    focus(&mut s, WindowKind::Popup, false);
    assert!(!s.dismiss_armed);
    assert!(!s.finalize_dismiss().0);
}

#[test]
fn clicks_elsewhere_and_other_menus_dismiss() {
    for event in [MacEvent::OutsideClick { outside: true }, MacEvent::Dismiss, MacEvent::TrayClicked] {
        let mut s = open();
        assert_eq!(s.apply_event(event), closing());
        assert!(s.focused.is_empty());
    }
    let mut s = open();
    assert!(s.apply_event(MacEvent::OutsideClick { outside: false }).is_empty());
    let mut closed = MacSession::new(menu());
    assert!(closed.apply_event(MacEvent::Dismiss).is_empty());
    assert!(closed.apply_event(MacEvent::OutsideClick { outside: true }).is_empty());
}

#[test]
fn leaving_every_panel_collapses_the_flyouts() {
    let mut s = open();
    s.session.select(0, Some(1));
    s.session.opened(1, vec![0]);
    assert!(s.apply_event(MacEvent::MouseExited { outside: false }).is_empty());
    assert_eq!(
        s.apply_event(MacEvent::MouseExited { outside: true }),
        vec![
            MacEffect::Menu(Effect::Close(1)),
            MacEffect::Menu(Effect::Redraw(0)),
            MacEffect::Menu(Effect::Sync)
        ]
    );
    assert_eq!(s.session.current_focus().top, None);
    // Nothing was highlighted any more: nothing to repaint.
    assert_eq!(
        s.apply_event(MacEvent::MouseExited { outside: true }),
        vec![MacEffect::Menu(Effect::Sync)]
    );
}

#[test]
fn rows_are_dispatched_by_click_key_and_assistive_action() {
    let mut want = vec![MacEffect::Menu(Effect::Dispatch(MenuId::new("a")))];
    want.extend(closing());
    let mut s = open();
    let click = MacEvent::MouseDown {
        kind: WindowKind::Popup,
        row: Some(0),
        id: Some(MenuId::new("a")),
    };
    assert_eq!(s.apply_event(click), want);
    let mut s = open();
    s.apply_event(MacEvent::Key(NavKey::Home));
    assert_eq!(s.apply_event(MacEvent::Key(NavKey::Activate)), want);
    let mut s = open();
    let action = MacEvent::A11yAction {
        kind: WindowKind::Popup,
        path: vec![0],
        action: AxAction::Click,
    };
    assert_eq!(s.apply_event(action), want);
}

#[test]
fn moving_over_a_parent_row_opens_its_flyout() {
    let mut s = open();
    let moved = MacEvent::MouseMoved {
        kind: WindowKind::Popup,
        row: Some(1),
    };
    assert_eq!(
        s.apply_event(moved),
        vec![
            MacEffect::Menu(Effect::Redraw(0)),
            MacEffect::Menu(Effect::Open(1)),
            MacEffect::Menu(Effect::Sync)
        ]
    );
}

fn app(owns_run_loop: bool) -> MacApp {
    MacApp {
        session: open(),
        tray: TrayState {
            icon: Icon::Checkmark,
            tooltip: None,
            title: None,
        },
        anchor: MacosAnchor { installed: true },
        owns_run_loop,
    }
}

#[test]
fn a_shutdown_spares_the_loop_of_the_host() {
    let mut a = app(false);
    let mut want = closing();
    want.push(MacEffect::RemoveStatusItem);
    assert_eq!(a.apply_command(TrayCommand::Shutdown), want);
    assert!(a.apply_command(TrayCommand::Shutdown).is_empty());
    let mut a = app(true);
    want.push(MacEffect::StopRunLoop);
    assert_eq!(a.apply_command(TrayCommand::Shutdown), want);
}

#[test]
fn status_commands_update_the_status_item() {
    let mut a = app(true);
    assert_eq!(a.apply_command(TrayCommand::SetIcon(Icon::Png(vec![1]))), vec![MacEffect::UpdateStatus]);
    assert_eq!(
        a.apply_command(TrayCommand::SetTitle(Some("45%".to_string()))),
        vec![MacEffect::UpdateStatus]
    );
    assert_eq!(a.tray.title.as_deref(), Some("45%"));
    assert_eq!(a.apply_command(TrayCommand::SetTooltip(None)), vec![MacEffect::UpdateTooltip]);
    assert_eq!(
        a.apply_command(TrayCommand::SetVisible(true)),
        vec![MacEffect::UpdateVisible(true)]
    );
    assert_eq!(a.apply_command(TrayCommand::QueryAnchorRect), vec![MacEffect::AnswerAnchor]);
    assert!(a.apply_command(TrayCommand::Open).is_empty());
    let repaint = vec![MacEffect::Menu(Effect::Redraw(0)), MacEffect::Menu(Effect::Sync)];
    assert_eq!(a.apply_command(TrayCommand::SetOptions), repaint);
    assert_eq!(a.apply_command(TrayCommand::SetMenu(Menu::new())), repaint);
    assert_eq!(a.apply_command(TrayCommand::Close), closing());
    assert_eq!(a.apply_command(TrayCommand::Open), vec![MacEffect::OpenPopup]);
}

#[test]
fn the_status_item_is_never_empty() {
    assert_eq!(status_item_text(true, Some("45%")), ("45%".to_string(), true));
    assert_eq!(status_item_text(false, Some("45%")), ("45%".to_string(), false));
    assert_eq!(status_item_text(true, Some("")), (String::new(), false));
    assert_eq!(status_item_text(true, None), (String::new(), false));
    assert_eq!(status_item_text(false, None), ("●".to_string(), false));
    assert_eq!(status_item_text(false, Some("")), ("●".to_string(), false));
}

#[test]
fn dark_appearances_are_known_by_name() {
    assert!(appearance_is_dark("NSAppearanceNameDarkAqua"));
    assert!(appearance_is_dark("vibrantDARK"));
    assert!(appearance_is_dark("dar\u{212a}"));
    assert!(!appearance_is_dark("NSAppearanceNameAqua"));
    assert!(!appearance_is_dark("dar"));
    assert!(!appearance_is_dark(""));
}

#[test]
fn the_menu_font_is_chosen() {
    let family = || Some("SF".to_string());
    assert_eq!(choose_font(true, true, family()), FontChoice::Packed);
    assert_eq!(choose_font(true, false, None), FontChoice::Regular);
    assert_eq!(choose_font(false, false, family()), FontChoice::Family("SF".to_string()));
    assert_eq!(choose_font(false, true, Some(String::new())), FontChoice::Missing);
    assert_eq!(choose_font(false, false, None), FontChoice::Missing);
    assert!(bold_is_distinct(Some("/b.ttf"), "/r.ttf"));
    assert!(!bold_is_distinct(Some("/r.ttf"), "/r.ttf"));
    assert!(!bold_is_distinct(None, "/r.ttf"));
}

#[test]
fn appkit_belongs_to_the_main_thread() {
    let mut off = MacPlatform::new(false);
    assert_eq!(off.require_main_thread(), Err(Error::MainThread));
    assert_eq!(off.install_tray(), Err(Error::MainThread));
    assert_eq!(
        off.tray_anchor_rect(Some(1)),
        Err(Error::Platform("tray not installed".to_string()))
    );
    let mut on = MacPlatform::new(true);
    assert_eq!(on.require_main_thread(), Ok(()));
    assert_eq!(on.install_tray(), Ok(false));
    assert_eq!(on.install_tray(), Ok(true));
    assert_eq!(on.tray_anchor_rect(Some(1)), Ok(1));
    assert_eq!(
        on.tray_anchor_rect(None::<u8>),
        Err(Error::Platform("status item not installed".to_string()))
    );
    assert!(on.supports_tray_anchor());
}

#[test]
fn a_status_item_is_removed_once() {
    let mut a = MacosAnchor::new();
    assert!(!a.remove());
    a.install();
    assert_eq!(a.anchor_rect(Some(3)), Ok(3));
    assert!(a.remove());
    assert!(!a.remove());
    assert!(a.anchor_rect(Some(3)).is_err());
}

#[test]
fn panels_lie_on_what_the_system_uses_for_menus() {
    assert_eq!(choose_backdrop(true, true), Backdrop::Glass { tinted: true });
    assert_eq!(choose_backdrop(true, false), Backdrop::Glass { tinted: false });
    assert_eq!(choose_backdrop(false, true), Backdrop::Vibrancy);
    assert_eq!(choose_backdrop(false, false), Backdrop::Vibrancy);
}
