use muri::error::{Error, Unsupported};
use muri::linux::{
    click_route, detect_linux_presenter, font_family, font_size_word, pointer_source,
    popup_allowed, presenter_uses_custom_popup, registration_failed, scheme_is_dark,
    system_appearance, system_menu_font, ClickRoute, Features, LinuxAnchor, LinuxMenuPresenter, LinuxPlatform,
    PointerSource, SessionEnv, Variant,
};
use muri::platform::{Appearance, SystemFontSource};

const ALL: Features = Features {
    x11_popup: true,
    wayland_styled: true,
};
const NONE: Features = Features {
    x11_popup: false,
    wayland_styled: false,
};

fn env(wayland: Option<&str>, display: Option<&str>, desktops: &[&str]) -> SessionEnv {
    SessionEnv {
        wayland_display: wayland.map(str::to_string),
        display: display.map(str::to_string),
        desktops: desktops.iter().map(|d| d.to_string()).collect(),
    }
}

#[test]
fn gnome_on_wayland_gets_the_native_menu() {
    let e = env(Some("wayland-0"), Some(":0"), &["ubuntu:GNOME", "sway"]);
    assert!(e.desktop_is_gnome() && e.suggests_layer_shell());
    assert_eq!(detect_linux_presenter(&e, ALL), LinuxMenuPresenter::NativeDbusMenu);
}

#[test]
fn layer_shell_desktops_are_recognized_whatever_the_case() {
    for d in ["sway", "Hyprland", "river", "Wayfire", "labwc", "COSMIC", "KDE", "plasma", "wlroots"] {
        let e = env(Some("wayland-0"), None, &[d]);
        assert_eq!(detect_linux_presenter(&e, ALL), LinuxMenuPresenter::WaylandLayerShell);
        assert_eq!(detect_linux_presenter(&e, NONE), LinuxMenuPresenter::NativeDbusMenu);
    }
    let unknown = env(Some("wayland-0"), Some(":0"), &["mystery"]);
    assert_eq!(detect_linux_presenter(&unknown, ALL), LinuxMenuPresenter::NativeDbusMenu);
}

#[test]
fn x11_gets_its_own_popup_where_the_build_has_it() {
    let e = env(None, Some(":0"), &[]);
    assert_eq!(detect_linux_presenter(&e, ALL), LinuxMenuPresenter::X11Popup);
    assert_eq!(detect_linux_presenter(&e, NONE), LinuxMenuPresenter::NativeDbusMenu);
    let empty = env(Some(""), Some(""), &[]);
    assert_eq!(detect_linux_presenter(&empty, ALL), LinuxMenuPresenter::NativeDbusMenu);
    assert!(!empty.wayland_display_present() && !empty.x11_available());
}

#[test]
fn only_own_popups_make_the_item_no_menu() {
    assert!(!presenter_uses_custom_popup(LinuxMenuPresenter::NativeDbusMenu));
    assert!(presenter_uses_custom_popup(LinuxMenuPresenter::X11Popup));
    assert!(presenter_uses_custom_popup(LinuxMenuPresenter::WaylandLayerShell));
}

#[test]
fn clicks_are_routed_by_the_presenter() {
    let at = |p, f| click_route(p, f, -5, 40);
    assert_eq!(at(LinuxMenuPresenter::NativeDbusMenu, ALL), ClickRoute::Host);
    assert_eq!(at(LinuxMenuPresenter::X11Popup, ALL), ClickRoute::AtPointer);
    assert_eq!(at(LinuxMenuPresenter::X11Popup, NONE), ClickRoute::Host);
    assert_eq!(
        at(LinuxMenuPresenter::WaylandLayerShell, ALL),
        ClickRoute::AtPoint { x: 0, y: 40 }
    );
    assert_eq!(at(LinuxMenuPresenter::WaylandLayerShell, NONE), ClickRoute::Host);
}

#[test]
fn the_pointer_is_asked_of_x11_first() {
    let x = env(None, Some(":0"), &[]);
    let w = env(Some("wayland-0"), None, &[]);
    assert_eq!(pointer_source(&x, ALL), PointerSource::X11);
    assert_eq!(pointer_source(&w, ALL), PointerSource::Wayland);
    assert_eq!(pointer_source(&w, NONE), PointerSource::Nobody);
}

#[test]
fn a_popup_needs_an_x_server() {
    let x = env(Some("wayland-0"), Some(":0"), &[]);
    let w = env(Some("wayland-0"), None, &[]);
    assert_eq!(popup_allowed(&x, ALL), Ok(()));
    let refused = Err(Error::Unsupported(Unsupported::ClientPositioning));
    assert_eq!(popup_allowed(&w, ALL), refused);
    assert_eq!(popup_allowed(&x, NONE), Err(Error::Unsupported(Unsupported::ClientPositioning)));
}

#[test]
fn the_tray_anchor_is_refused() {
    let a = LinuxAnchor::new();
    assert_eq!(a.anchor_rect(), Err(Error::Unsupported(Unsupported::TrayAnchor)));
    assert!(!a.supports_tray_anchor());
    let p = LinuxPlatform::new();
    assert_eq!(p.tray_anchor_rect(), Err(Error::Unsupported(Unsupported::TrayAnchor)));
    assert!(!p.supports_tray_anchor());
}

#[test]
fn a_failed_registration_keeps_the_earlier_item() {
    let mut p = LinuxPlatform::new();
    assert_eq!(p.install_tray(Ok(())), Ok(false));
    assert_eq!(p.install_tray(Ok(())), Ok(true));
    let failed = p.install_tray(Err("no bus".to_string()));
    assert_eq!(
        failed,
        Err(Error::TrayInstall("SNI/StatusNotifierItem registration failed: no bus".to_string()))
    );
    assert!(p.installed);
    assert!(p.release());
    assert!(!p.release());
    assert_eq!(
        registration_failed(&"x".to_string()),
        Error::TrayInstall("SNI/StatusNotifierItem registration failed: x".to_string())
    );
}

#[test]
fn the_color_scheme_is_unwrapped() {
    let nested = |v| Variant::Nested(Box::new(Variant::Nested(Box::new(v))));
    assert_eq!(scheme_is_dark(&nested(Variant::U32(1))), Some(true));
    assert_eq!(scheme_is_dark(&Variant::U32(2)), Some(false));
    assert_eq!(scheme_is_dark(&nested(Variant::Other)), None);
    assert_eq!(system_appearance(Some(&Variant::U32(1))), Appearance::Dark);
    assert_eq!(system_appearance(Some(&Variant::U32(0))), Appearance::Light);
    assert_eq!(system_appearance(Some(&Variant::Other)), Appearance::Light);
    assert_eq!(system_appearance(None), Appearance::Light);
}

#[test]
fn font_settings_name_a_family() {
    assert_eq!(font_size_word("'Cantarell 11'\n").as_deref(), Some("11"));
    assert_eq!(font_family("'Cantarell 11'\n", true).as_deref(), Some("Cantarell"));
    assert_eq!(font_family("\"Noto Sans  SemiBold Italic 10.5\"", true).as_deref(), Some("Noto Sans"));
    assert_eq!(font_family("'Ubuntu Mono'", false).as_deref(), Some("Ubuntu Mono"));
    // A style inside the name stays.
    assert_eq!(font_family("'Black Ops One Bold'", false).as_deref(), Some("Black Ops One"));
    assert_eq!(font_family("'Bold 11'", true), None);
    assert_eq!(font_family("''", false), None);
    assert_eq!(font_size_word("''"), None);
}

#[test]
fn the_menu_font_is_an_installed_family() {
    let family = |raw: &str, sized: bool| match system_menu_font(raw, sized) {
        Some(SystemFontSource::Family(name)) => Some(name),
        Some(other) => panic!("not a family: {other:?}"),
        None => None,
    };
    assert_eq!(family("'Cantarell Bold 11'\n", true), Some("Cantarell".to_string()));
    assert_eq!(family("'Noto Sans'\n", false), Some("Noto Sans".to_string()));
    assert_eq!(family("'11'\n", true), None);
}
