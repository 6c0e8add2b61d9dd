use muri::platform::{current, Appearance, PlatformEvent, SystemFontSource, SystemPalette};
use muri::keynav::NavKey;
use muri::style::Color;
use muri::theme::{inject_accent, inject_system, system_accent, Theme};

fn theme() -> Theme {
    Theme {
        accent: Color::SystemRed,
        label: Color::Label,
        secondary_label: Color::SecondaryLabel,
        separator: Color::Separator,
        background: Color::Rgba(1, 2, 3, 4),
    }
}

#[test]
fn a_palette_paints_what_it_sets() {
    let mut t = theme();
    let palette = SystemPalette {
        label: Some((1, 1, 1, 255)),
        separator: Some((2, 2, 2, 128)),
        ..Default::default()
    };
    palette.apply_to(&mut t);
    let want = Theme {
        label: Color::Rgba(1, 1, 1, 255),
        separator: Color::Rgba(2, 2, 2, 128),
        ..theme()
    };
    assert_eq!(t, want);
    // Painting again changes nothing, and neither does an empty palette.
    palette.apply_to(&mut t);
    SystemPalette::default().apply_to(&mut t);
    assert_eq!(t, want);
}

#[test]
fn every_entry_of_a_palette_has_its_place() {
    let mut t = theme();
    SystemPalette {
        label: Some((1, 0, 0, 0)),
        secondary_label: Some((2, 0, 0, 0)),
        separator: Some((3, 0, 0, 0)),
        background: Some((4, 0, 0, 0)),
    }
    .apply_to(&mut t);
    assert_eq!(t.accent, Color::SystemRed);
    assert_eq!(t.label, Color::Rgba(1, 0, 0, 0));
    assert_eq!(t.secondary_label, Color::Rgba(2, 0, 0, 0));
    assert_eq!(t.separator, Color::Rgba(3, 0, 0, 0));
    assert_eq!(t.background, Color::Rgba(4, 0, 0, 0));
}

#[test]
fn only_a_theme_that_follows_the_host_is_injected() {
    let accent = Some((9, 8, 7, 255));
    let mut t = theme();
    inject_accent(&mut t, false, accent);
    assert_eq!(t, theme());
    inject_accent(&mut t, true, None);
    assert_eq!(t, theme());
    inject_accent(&mut t, true, accent);
    assert_eq!(t.accent, Color::Rgba(9, 8, 7, 255));

    let palette = SystemPalette {
        label: Some((5, 5, 5, 255)),
        ..Default::default()
    };
    let mut t = theme();
    assert!(!inject_system(&mut t, false, accent, &palette, false));
    assert_eq!(t, theme());
    assert!(inject_system(&mut t, true, accent, &palette, false));
    assert_eq!(t.accent, Color::Rgba(9, 8, 7, 255));
    assert_eq!(t.label, Color::Rgba(5, 5, 5, 255));
    assert!(!inject_system(&mut t, true, None, &palette, true));
}

#[test]
fn accents_are_known_by_name() {
    assert_eq!(system_accent("'blue'\n"), Some((0x35, 0x84, 0xe4, 255)));
    assert_eq!(system_accent("teal"), Some((0x21, 0x90, 0xa4, 255)));
    assert_eq!(system_accent("\"green\""), Some((0x3a, 0x94, 0x4a, 255)));
    assert_eq!(system_accent("yellow"), Some((0xc8, 0x88, 0x00, 255)));
    assert_eq!(system_accent("orange"), Some((0xed, 0x5b, 0x00, 255)));
    assert_eq!(system_accent("red"), Some((0xe6, 0x2d, 0x42, 255)));
    assert_eq!(system_accent("pink"), Some((0xd5, 0x61, 0x99, 255)));
    assert_eq!(system_accent("purple"), Some((0x91, 0x41, 0xac, 255)));
    assert_eq!(system_accent(" ' slate ' "), Some((0x6f, 0x83, 0x96, 255)));
    assert_eq!(system_accent("Blue"), None);
    assert_eq!(system_accent(""), None);
}

#[test]
fn appearances_are_dark_or_light() {
    for dark in [true, false] {
        assert_eq!(Appearance::from_is_dark(dark).is_dark(), dark);
    }
}

#[test]
fn events_and_font_sources_are_plain_values() {
    assert_eq!(PlatformEvent::Key(NavKey::Up), PlatformEvent::Key(NavKey::Up));
    assert_ne!(PlatformEvent::TrayActivated, PlatformEvent::Dismissed);
    let source = SystemFontSource::Path(std::path::PathBuf::from("/f.ttf"));
    assert!(matches!(source, SystemFontSource::Path(p) if p.ends_with("f.ttf")));
}

#[test]
fn the_current_platform_starts_with_nothing_installed() {
    assert!(!current().installed);
}
