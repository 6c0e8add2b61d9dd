use muri::error::Error;
use muri::keynav::NavKey;
use muri::menu::{Icon, Menu, MenuId, Row};
use muri::session::{AxAction, Effect, WindowKind};
use muri::tray::{TrayCommand, TrayState};
use muri::utf16::wide;
use muri::windows::{
    after_install_step, effective_dpi, keyboard_hook_key, lparam_xy, mouse_hook_queues,
    point_in_any, popup_anchor, popup_dpi, system_is_dark, window_kind, window_message, InstallNext,
    InstallStep, PicturePlan, Release, UiEvent, WinApp, WinEffect, WinSession, WindowsAnchor,
    WindowsPlatform, WndAction, HC_ACTION, WM_ACTIVATEAPP, WM_KEYDOWN, WM_LBUTTONDOWN,
    WM_LBUTTONUP, WM_MOUSEMOVE, WM_MURI_DRAIN, WM_RBUTTONDOWN, WM_TRAY_CALLBACK,
};
use windows_sys::Win32::UI::WindowsAndMessaging as win32;

#[test]
fn messages_are_those_of_the_system() {
    assert_eq!(WM_TRAY_CALLBACK, win32::WM_APP + 1);
    assert_eq!(WM_MURI_DRAIN, win32::WM_APP + 2);
    assert_eq!(WM_ACTIVATEAPP, win32::WM_ACTIVATEAPP);
    assert_eq!(WM_KEYDOWN, win32::WM_KEYDOWN);
    assert_eq!(WM_MOUSEMOVE, win32::WM_MOUSEMOVE);
    assert_eq!(WM_LBUTTONDOWN, win32::WM_LBUTTONDOWN);
    assert_eq!(WM_LBUTTONUP, win32::WM_LBUTTONUP);
    assert_eq!(WM_RBUTTONDOWN, win32::WM_RBUTTONDOWN);
    assert_eq!(HC_ACTION, win32::HC_ACTION as i32);
}

#[test]
fn point_in_any_matches_windows_rects() {
    let rects = [(100, 200, 300, 500), (300, 220, 460, 420)];
    assert!(point_in_any(&rects, 150, 250));
    assert!(point_in_any(&rects, 400, 300));
    assert!(!point_in_any(&rects, 150, 100));
    assert!(!point_in_any(&rects, 500, 300));
    assert!(!point_in_any(&[(0, 0, 10, 10)], 10, 5));
    assert!(!point_in_any(&[(0, 0, 10, 10)], 5, 10));
    assert!(point_in_any(&[(0, 0, 10, 10)], 0, 0));
}

#[test]
fn fill_tip_always_nul_terminates_when_overlong() {
    let long = "A".repeat(200);
    let mut buf = [0u16; 128];
    WindowsAnchor::fill_tip(&long, &mut buf);
    assert_eq!(
        buf[buf.len() - 1],
        0,
        "the last szTip slot must remain a NUL terminator"
    );
    assert_eq!(buf[0], u16::from(b'A'));
    assert_eq!(buf[126], u16::from(b'A'));
    assert_ne!(buf[126], 0);
}

#[test]
fn fill_tip_terminates_a_short_tooltip_too() {
    let mut buf = [0u16; 128];
    WindowsAnchor::fill_tip("Hi", &mut buf);
    assert_eq!(buf[0], u16::from(b'H'));
    assert_eq!(buf[1], u16::from(b'i'));
    assert_eq!(buf[2], 0);
    assert_eq!(buf[127], 0);
}

#[test]
fn text_becomes_utf16_with_a_terminator() {
    assert_eq!(wide(""), vec![0]);
    assert_eq!(wide("aé€"), vec![0x61, 0xe9, 0x20ac, 0]);
    assert_eq!(wide("\u{1f600}"), vec![0xd83d, 0xde00, 0]);
    let text = "mixed \u{10ffff}\u{10000}\u{ffff} text";
    let code = wide(text);
    assert_eq!(String::from_utf16(&code[..code.len() - 1]).unwrap(), text);
}

#[test]
fn a_tag_names_its_window() {
    for kind in [WindowKind::Popup, WindowKind::Flyout(0), WindowKind::Flyout(7)] {
        assert_eq!(window_kind(kind.tag()), Some(kind));
    }
    assert_eq!(WindowKind::Popup.tag(), 1);
    assert_eq!(WindowKind::Flyout(3).tag(), 5);
    assert_eq!(window_kind(0), None);
    assert_eq!(window_kind(-4), None);
}

#[test]
fn client_positions_are_signed() {
    assert_eq!(lparam_xy(0x0010_0020), (0x20, 0x10));
    assert_eq!(lparam_xy(0xffff_fffe), (-2, -1));
    assert_eq!(lparam_xy(0x8000_7fff), (32767, -32768));
}

#[test]
fn window_messages_become_actions() {
    let m = |msg, w, l, k| window_message(msg, w, l, k, 0xc123);
    let popup = Some(WindowKind::Popup);
    assert_eq!(m(WM_MURI_DRAIN, 0, 0, None), WndAction::Drain);
    assert_eq!(m(WM_TRAY_CALLBACK, 0, 0x0005_0202, None), WndAction::TrayClicked);
    assert_eq!(m(WM_TRAY_CALLBACK, 0, 0x0201, None), WndAction::Nothing);
    assert_eq!(
        m(WM_MOUSEMOVE, 0, 0x0002_0001, popup),
        WndAction::MouseMoved { kind: WindowKind::Popup, x: 1, y: 2 }
    );
    assert_eq!(m(WM_MOUSEMOVE, 0, 0, None), WndAction::Nothing);
    assert_eq!(
        m(WM_LBUTTONUP, 0, 0x0002_0001, Some(WindowKind::Flyout(1))),
        WndAction::MouseClick { kind: WindowKind::Flyout(1), x: 1, y: 2 }
    );
    assert_eq!(m(WM_LBUTTONUP, 0, 0, None), WndAction::Nothing);
    assert_eq!(m(WM_ACTIVATEAPP, 0, 0, popup), WndAction::AppDeactivated);
    assert_eq!(m(WM_ACTIVATEAPP, 1, 0, popup), WndAction::Nothing);
    assert_eq!(m(0xc123, 0, 0, None), WndAction::AddIconAgain);
    assert_eq!(m(0x0f, 0, 0, popup), WndAction::Default);
    assert_eq!(window_message(0, 0, 0, None, 0), WndAction::Default);
}

#[test]
fn hooks_queue_presses_and_menu_keys() {
    assert!(mouse_hook_queues(0, WM_LBUTTONDOWN));
    assert!(mouse_hook_queues(0, WM_RBUTTONDOWN));
    assert!(!mouse_hook_queues(0, WM_LBUTTONUP));
    assert!(!mouse_hook_queues(-1, WM_LBUTTONDOWN));
    assert_eq!(keyboard_hook_key(0, WM_KEYDOWN, 0x28), Some(NavKey::Down));
    assert_eq!(keyboard_hook_key(0, WM_KEYDOWN, 0x1_0028), Some(NavKey::Down));
    assert_eq!(keyboard_hook_key(0, 0x101, 0x28), None);
    assert_eq!(keyboard_hook_key(3, WM_KEYDOWN, 0x28), None);
}

#[test]
fn defaults_stand_in_for_what_windows_does_not_tell() {
    assert!(system_is_dark(Some(0)));
    assert!(!system_is_dark(Some(1)));
    assert!(!system_is_dark(None));
    assert_eq!(effective_dpi(0), 96);
    assert_eq!(effective_dpi(144), 144);
    assert_eq!(popup_dpi(Some(192), 96), 192);
    assert_eq!(popup_dpi(Some(0), 120), 120);
    assert_eq!(popup_dpi(None, 0), 96);
    assert_eq!(popup_anchor(Some((1, 2, 3, 4)), None), Some((1, 2, 3, 4)));
    assert_eq!(popup_anchor(None, Some((10, 20))), Some((10, 20, 11, 21)));
    assert_eq!(popup_anchor(None, None), None);
}

#[test]
fn an_icon_is_installed_and_released() {
    let mut a = WindowsAnchor::new();
    assert_eq!(
        a.anchor_rect(Some(7)),
        Err(Error::Platform("tray icon not installed".to_string()))
    );
    assert_eq!(
        a.window_created(false, None),
        Err(Error::Platform("failed to create tray message window".to_string()))
    );
    assert_eq!(a.window_created(true, Some("tip".to_string())), Ok(()));
    assert_eq!(a.tooltip.as_deref(), Some("tip"));
    assert_eq!(
        a.icon_added(false),
        Err(Error::TrayInstall("Shell_NotifyIcon(NIM_ADD) failed".to_string()))
    );
    assert!(!a.window && !a.installed);
    a.window_created(true, None).unwrap();
    assert_eq!(a.icon_added(true), Ok(()));
    assert_eq!(a.anchor_rect(Some(7)), Ok(7));
    assert!(a.anchor_rect(None::<u8>).is_err());
    assert!(a.can_readd());
    assert_eq!(
        a.icon_readded(false),
        Err(Error::Platform("Shell_NotifyIcon re-add failed".to_string()))
    );
    assert_eq!(a.icon_readded(true), Ok(()));
    assert!(a.set_tooltip(None));
    a.picture = true;
    assert_eq!(
        a.release(),
        vec![Release::Unregister, Release::DestroyPicture, Release::DestroyWindow]
    );
    assert!(a.release().is_empty());
    assert!(!a.set_tooltip(None));
    assert!(WindowsPlatform::new().supports_tray_anchor());
}

#[test]
fn pictures_are_decoded_once() {
    let mut a = WindowsAnchor::default();
    let png = Icon::Png(vec![1]);
    assert_eq!(a.plan_picture(&png, true), PicturePlan::Decode);
    assert_eq!(
        a.picture_resolved(PicturePlan::Decode, false),
        Err(Error::BadIcon("could not decode PNG tray icon bytes".to_string()))
    );
    assert_eq!(a.picture_resolved(PicturePlan::Decode, true), Ok(false));
    assert_eq!(a.plan_picture(&png, true), PicturePlan::Reuse);
    assert_eq!(a.plan_picture(&png, false), PicturePlan::Decode);
    assert_eq!(a.picture_resolved(PicturePlan::Reuse, false), Ok(false));
    assert_eq!(a.plan_picture(&Icon::Checkmark, true), PicturePlan::Clear);
    assert_eq!(a.picture_resolved(PicturePlan::Clear, false), Ok(true));
    assert!(!a.picture);
}

fn menu() -> Menu {
    Menu::new()
        .row(Row::new("a").label("A"))
        .submenu(Row::new("").label("B"), Menu::new().row(Row::new("c").label("C")))
}

fn open() -> WinSession {
    let mut s = WinSession::new(menu());
    assert_eq!(s.apply_event(UiEvent::TrayClicked), vec![WinEffect::OpenPopup]);
    assert_eq!(s.popup_opened(vec![0, 1]), (true, true));
    s.hooks_installed(true, true);
    s
}

fn closing() -> Vec<WinEffect> {
    vec![
        WinEffect::RemoveMouseHook,
        WinEffect::RemoveKeyboardHook,
        WinEffect::Menu(Effect::Close(0)),
    ]
}

#[test]
fn the_tray_icon_toggles_the_popup() {
    let mut s = open();
    assert_eq!(s.apply_event(UiEvent::TrayClicked), closing());
    assert!(s.session.popup.is_none() && !s.mouse_hook && !s.keyboard_hook);
    assert!(s.close_popup().is_empty(), "closing again asks for nothing");
}

#[test]
fn a_press_elsewhere_dismisses() {
    let press = |x, y, icon| UiEvent::GlobalMouseDown {
        x,
        y,
        panels: vec![(0, 0, 100, 100)],
        icon,
    };
    let mut s = open();
    assert!(s.apply_event(press(50, 50, None)).is_empty());
    assert!(s.apply_event(press(500, 500, Some((490, 490, 510, 510)))).is_empty());
    assert_eq!(s.apply_event(press(100, 50, None)), closing());
    assert!(s.apply_event(press(100, 50, None)).is_empty());
}

#[test]
fn another_application_dismisses() {
    let mut s = open();
    assert_eq!(s.apply_event(UiEvent::AppDeactivated), closing());
    assert!(s.apply_event(UiEvent::AppDeactivated).is_empty());
}

#[test]
fn clicks_and_keys_dispatch_before_closing() {
    let mut s = open();
    let mut want = vec![WinEffect::Menu(Effect::Dispatch(MenuId::new("a")))];
    want.extend(closing());
    let click = UiEvent::MouseClick {
        kind: WindowKind::Popup,
        row: Some(0),
        id: Some(MenuId::new("a")),
    };
    assert_eq!(s.apply_event(click), want);
    let mut s = open();
    s.apply_event(UiEvent::Key(NavKey::Down));
    assert_eq!(s.apply_event(UiEvent::Key(NavKey::Activate)), want);
}

#[test]
fn moving_opens_a_flyout() {
    let mut s = open();
    let moved = UiEvent::MouseMoved {
        kind: WindowKind::Popup,
        row: Some(1),
    };
    assert_eq!(
        s.apply_event(moved),
        vec![
            WinEffect::Menu(Effect::Redraw(0)),
            WinEffect::Menu(Effect::Open(1)),
            WinEffect::Menu(Effect::Sync)
        ]
    );
}

#[test]
fn assistive_actions_are_relative_to_their_window() {
    let mut s = open();
    s.session.opened(1, vec![0]);
    let e = s.on_a11y_action(WindowKind::Flyout(0), &[0], AxAction::Click);
    assert_eq!(e[0], WinEffect::Menu(Effect::Dispatch(MenuId::new("c"))));
    assert!(s.session.popup.is_none());
}

fn app() -> WinApp {
    WinApp {
        session: open(),
        anchor: WindowsAnchor {
            window: true,
            installed: true,
            tooltip: None,
            picture: false,
        },
        tray: TrayState {
            icon: Icon::Checkmark,
            tooltip: None,
            title: None,
        },
    }
}

#[test]
fn commands_reach_the_tray_and_the_popup() {
    let mut a = app();
    assert_eq!(
        a.apply_command(TrayCommand::SetMenu(Menu::new())),
        vec![WinEffect::Menu(Effect::Redraw(0)), WinEffect::Menu(Effect::Sync)]
    );
    assert_eq!(a.apply_command(TrayCommand::SetIcon(Icon::Png(vec![]))), vec![WinEffect::UpdateIcon]);
    assert_eq!(
        a.apply_command(TrayCommand::SetTooltip(Some("t".to_string()))),
        vec![WinEffect::UpdateTooltip]
    );
    assert_eq!(a.anchor.tooltip.as_deref(), Some("t"));
    assert_eq!(a.tray.tooltip.as_deref(), Some("t"));
    assert!(a.apply_command(TrayCommand::SetTitle(Some("x".to_string()))).is_empty());
    assert_eq!(a.tray.title.as_deref(), Some("x"));
    assert_eq!(
        a.apply_command(TrayCommand::SetVisible(false)),
        vec![WinEffect::UpdateVisible(false)]
    );
    assert!(a.apply_command(TrayCommand::Open).is_empty());
    assert_eq!(
        a.apply_command(TrayCommand::SetTheme),
        vec![WinEffect::Menu(Effect::Redraw(0)), WinEffect::Menu(Effect::Sync)]
    );
    assert_eq!(a.apply_command(TrayCommand::QueryAnchorRect), vec![WinEffect::AnswerAnchor]);
    assert_eq!(a.apply_command(TrayCommand::Close), closing());
    assert_eq!(a.apply_command(TrayCommand::Open), vec![WinEffect::OpenPopup]);
    assert_eq!(a.apply_command(TrayCommand::Shutdown), vec![WinEffect::Quit]);
    a.anchor.installed = false;
    assert!(a.apply_command(TrayCommand::SetVisible(true)).is_empty());
    assert!(a.apply_command(TrayCommand::SetIcon(Icon::Checkmark)).is_empty());
}

/// Runs an installation whose steps work up to `failing`, and gives the steps that were tried.
fn install(failing: Option<InstallStep>) -> (Vec<InstallStep>, InstallNext) {
    let mut tried = Vec::new();
    let mut step = InstallStep::Picture;
    loop {
        tried.push(step);
        match after_install_step(step, failing != Some(step)) {
            InstallNext::Do(next) => step = next,
            end => return (tried, end),
        }
    }
}

#[test]
fn an_installation_goes_from_the_picture_to_the_registration() {
    let (tried, end) = install(None);
    assert_eq!(
        tried,
        vec![
            InstallStep::Picture,
            InstallStep::Window,
            InstallStep::Register
        ]
    );
    assert_eq!(end, InstallNext::Installed);
}

#[test]
fn an_icon_that_does_not_decode_creates_no_window() {
    let mut anchor = WindowsAnchor::new();
    let plan = anchor.plan_picture(&Icon::Png(vec![1, 2, 3]), false);
    assert_eq!(plan, PicturePlan::Decode);
    let outcome = anchor.picture_resolved(plan, false);
    assert_eq!(
        after_install_step(InstallStep::Picture, outcome.is_ok()),
        InstallNext::Stop {
            destroy_window: false
        }
    );
    assert!(!anchor.window && !anchor.installed);
    let (tried, _) = install(Some(InstallStep::Picture));
    assert_eq!(tried, vec![InstallStep::Picture]);
}

#[test]
fn only_a_window_that_was_created_is_destroyed() {
    let (tried, end) = install(Some(InstallStep::Window));
    assert_eq!(tried, vec![InstallStep::Picture, InstallStep::Window]);
    assert_eq!(
        end,
        InstallNext::Stop {
            destroy_window: false
        }
    );
    let (_, end) = install(Some(InstallStep::Register));
    assert_eq!(
        end,
        InstallNext::Stop {
            destroy_window: true
        }
    );
}

#[test]
fn a_default_platform_has_nothing_installed() {
    let platform = WindowsPlatform::default();
    assert!(!platform.anchor.window && !platform.anchor.installed);
    assert!(platform.anchor.tooltip.is_none() && !platform.anchor.picture);
}
