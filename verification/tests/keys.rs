use muri::keymap::{
    evdev_to_navkey, evdev_us_char, keycode_range_count, keysym_to_navkey, translate_key,
    translate_ns_key, translate_vk,
};
use muri::keynav::{find_first, find_last, handle_key, FlyoutFocus, MenuFocus, NavAction, NavKey};
use muri::menu::{Item, Menu, MenuId, Row};
use windows_sys::Win32::UI::Input::KeyboardAndMouse::{
    VK_DOWN, VK_END, VK_ESCAPE, VK_HOME, VK_LEFT, VK_RETURN, VK_RIGHT, VK_SPACE, VK_UP,
};

#[test]
fn evdev_navigation_keys_map_layout_independently() {
    assert_eq!(evdev_to_navkey(1), Some(NavKey::Escape));
    assert_eq!(evdev_to_navkey(103), Some(NavKey::Up));
    assert_eq!(evdev_to_navkey(108), Some(NavKey::Down));
    assert_eq!(evdev_to_navkey(28), Some(NavKey::Activate));
    assert_eq!(evdev_to_navkey(96), Some(NavKey::Activate));
    assert_eq!(evdev_to_navkey(30), Some(NavKey::Char('a')));
    assert_eq!(evdev_to_navkey(0), None);
}

/// A normal X11 keymap (min=8, max=255 is the common real-world case).
#[test]
fn typical_range_is_accepted() {
    assert_eq!(keycode_range_count(8, 255), Some(248));
    assert_eq!(keycode_range_count(0, 0), Some(1));
    assert_eq!(keycode_range_count(5, 5), Some(1));
}

/// The widest range that still fits in the protocol's single-byte count.
#[test]
fn max_representable_span_is_accepted() {
    assert_eq!(keycode_range_count(0, 254), Some(255));
}

/// A server reporting `min > max` must not underflow.
#[test]
fn inverted_range_is_rejected() {
    assert_eq!(keycode_range_count(255, 0), None);
    assert_eq!(keycode_range_count(10, 9), None);
}

/// A 256-keycode span overflows the single-byte `count` field.
#[test]
fn full_span_overflow_is_rejected() {
    assert_eq!(keycode_range_count(0, 255), None);
}

#[test]
fn named_navigation_keys_map_by_code() {
    assert_eq!(translate_vk(VK_DOWN), Some(NavKey::Down));
    assert_eq!(translate_vk(VK_ESCAPE), Some(NavKey::Escape));
    assert_eq!(translate_vk(VK_RETURN), Some(NavKey::Activate));
    assert_eq!(translate_vk(VK_SPACE), Some(NavKey::Activate));
}

#[test]
fn the_other_named_keys_map_by_code_too() {
    assert_eq!(translate_vk(VK_UP), Some(NavKey::Up));
    assert_eq!(translate_vk(VK_LEFT), Some(NavKey::Left));
    assert_eq!(translate_vk(VK_RIGHT), Some(NavKey::Right));
    assert_eq!(translate_vk(VK_HOME), Some(NavKey::Home));
    assert_eq!(translate_vk(VK_END), Some(NavKey::End));
}

#[test]
fn alphanumeric_keys_map_to_lowercase_chars() {
    assert_eq!(translate_vk(0x41), Some(NavKey::Char('a'))); // VK_A
    assert_eq!(translate_vk(0x5A), Some(NavKey::Char('z'))); // VK_Z
    assert_eq!(translate_vk(0x30), Some(NavKey::Char('0'))); // VK_0
}

#[test]
fn unmapped_keys_are_ignored() {
    assert_eq!(translate_vk(0x10), None); // VK_SHIFT
}

#[test]
fn every_evdev_letter_and_digit_is_on_the_keyboard() {
    let mut seen: Vec<char> = (0..200).filter_map(evdev_us_char).collect();
    seen.sort();
    let all: Vec<char> = ('0'..='9').chain('a'..='z').collect();
    assert_eq!(seen, all);
    assert_eq!(evdev_us_char(16), Some('q'));
    assert_eq!(evdev_us_char(50), Some('m'));
    assert_eq!(evdev_us_char(11), Some('0'));
    assert_eq!(evdev_us_char(51), None);
}

#[test]
fn type_ahead_agrees_between_the_backends() {
    for c in ('a'..='z').chain('0'..='9') {
        assert_eq!(keysym_to_navkey(c as u32), Some(NavKey::Char(c)));
        let vk = c.to_ascii_uppercase() as u16;
        assert_eq!(translate_vk(vk), Some(NavKey::Char(c)));
        assert!((0..200).any(|code| evdev_to_navkey(code) == Some(NavKey::Char(c))));
    }
}

#[test]
fn keysyms_map_to_navigation() {
    assert_eq!(keysym_to_navkey(0xff52), Some(NavKey::Up));
    assert_eq!(keysym_to_navkey(0xff8d), Some(NavKey::Activate));
    assert_eq!(keysym_to_navkey(0x20), Some(NavKey::Activate));
    assert_eq!(keysym_to_navkey(0x7e), Some(NavKey::Char('~')));
    assert_eq!(keysym_to_navkey(0x7f), None);
    assert_eq!(keysym_to_navkey(0xff50), Some(NavKey::Home));
    assert_eq!(keysym_to_navkey(0xff57), Some(NavKey::End));
}

#[test]
fn the_first_keysym_of_a_key_code_counts() {
    // Two keysyms for each key code from 8 on.
    let keymap = [0xff1b, 0x7e, 0x61, 0x41];
    assert_eq!(translate_key(&keymap, 8, 2, 8), Some(NavKey::Escape));
    assert_eq!(translate_key(&keymap, 8, 2, 9), Some(NavKey::Char('a')));
    assert_eq!(translate_key(&keymap, 8, 2, 10), None);
    assert_eq!(translate_key(&keymap, 8, 2, 7), None);
}

#[test]
fn appkit_keys_go_by_code_and_then_by_character() {
    assert_eq!(translate_ns_key(125, None), Some(NavKey::Down));
    assert_eq!(translate_ns_key(76, Some("x")), Some(NavKey::Activate));
    assert_eq!(translate_ns_key(0, Some("ab")), Some(NavKey::Char('a')));
    assert_eq!(translate_ns_key(0, Some("\u{7f}")), None);
    assert_eq!(translate_ns_key(0, Some("")), None);
    assert_eq!(translate_ns_key(0, None), None);
}

fn menu() -> Menu {
    let mut disabled = Row::new("off").label("Off");
    disabled.enabled = false;
    Menu::new()
        .item(Item::SectionHeader(Row::new("").label("Heading")))
        .row(Row::new("one").label("One"))
        .row(disabled)
        .item(Item::Separator)
        .submenu(
            Row::new("more").label("More"),
            Menu::new().item(Item::Content).row(Row::new("inner").label("Inner")),
        )
        .row(Row::new("").label("Inert"))
        .row(Row::new("other").label("Other"))
}

fn focus(top: Option<usize>, flyout: Vec<FlyoutFocus>) -> MenuFocus {
    MenuFocus { top, flyout }
}

#[test]
fn arrows_skip_what_cannot_be_selected_and_wrap_around() {
    let m = menu();
    let mut f = focus(None, vec![]);
    for want in [1, 4, 6, 1] {
        assert_eq!(handle_key(&m, &mut f, NavKey::Down), NavAction::Redraw);
        assert_eq!(f.top, Some(want));
    }
    for want in [6, 4, 1, 6] {
        assert_eq!(handle_key(&m, &mut f, NavKey::Up), NavAction::Redraw);
        assert_eq!(f.top, Some(want));
    }
}

#[test]
fn home_end_and_typed_characters_jump() {
    let m = menu();
    let mut f = focus(Some(4), vec![]);
    handle_key(&m, &mut f, NavKey::Home);
    assert_eq!(f.top, Some(1));
    handle_key(&m, &mut f, NavKey::End);
    assert_eq!(f.top, Some(6));
    // `o` begins both "One" and "Other", but not the disabled "Off".
    handle_key(&m, &mut f, NavKey::Char('O'));
    assert_eq!(f.top, Some(1));
    handle_key(&m, &mut f, NavKey::Char('o'));
    assert_eq!(f.top, Some(6));
    assert_eq!(handle_key(&m, &mut f, NavKey::Char('z')), NavAction::Ignore);
    assert_eq!(f.top, Some(6));
}

#[test]
fn left_undoes_right() {
    let m = menu();
    let mut f = focus(Some(4), vec![]);
    assert_eq!(handle_key(&m, &mut f, NavKey::Right), NavAction::OpenFlyout(4));
    assert_eq!(f.flyout, vec![FlyoutFocus { parent: 4, child: Some(1) }]);
    assert_eq!(handle_key(&m, &mut f, NavKey::Left), NavAction::CloseFlyout);
    assert_eq!(f.top, Some(4));
    assert!(f.flyout.is_empty());
    assert_eq!(handle_key(&m, &mut f, NavKey::Left), NavAction::Ignore);
}

#[test]
fn activating_dispatches_a_row_and_enters_a_submenu() {
    let m = menu();
    let mut f = focus(Some(1), vec![]);
    assert_eq!(
        handle_key(&m, &mut f, NavKey::Activate),
        NavAction::Activate(MenuId::new("one"))
    );
    let mut f = focus(Some(4), vec![]);
    assert_eq!(handle_key(&m, &mut f, NavKey::Activate), NavAction::OpenFlyout(4));
    assert_eq!(
        handle_key(&m, &mut f, NavKey::Activate),
        NavAction::Activate(MenuId::new("inner"))
    );
    let mut f = focus(None, vec![]);
    assert_eq!(handle_key(&m, &mut f, NavKey::Activate), NavAction::Ignore);
    assert_eq!(handle_key(&m, &mut f, NavKey::Escape), NavAction::CloseAll);
}

#[test]
fn a_stack_that_does_not_resolve_ignores_keys() {
    let m = menu();
    let mut f = focus(Some(1), vec![FlyoutFocus { parent: 1, child: None }]);
    assert_eq!(handle_key(&m, &mut f, NavKey::Down), NavAction::Ignore);
    assert_eq!(f.top, Some(1));
}

#[test]
fn a_menu_without_selectable_rows_ignores_the_arrows() {
    let m = Menu::new().item(Item::Separator).row(Row::new(""));
    let mut f = focus(None, vec![]);
    assert_eq!(handle_key(&m, &mut f, NavKey::Down), NavAction::Ignore);
    assert_eq!(handle_key(&m, &mut f, NavKey::Up), NavAction::Ignore);
    assert_eq!(find_first(&m, None, 0), None);
    assert_eq!(find_last(&m, 2), None);
    assert_eq!(f.selection(), None);
}

#[test]
fn open_flyouts_are_reported_as_expanded() {
    let two = focus(
        Some(2),
        vec![
            FlyoutFocus {
                parent: 2,
                child: Some(5),
            },
            FlyoutFocus {
                parent: 5,
                child: None,
            },
        ],
    );
    assert_eq!(two.expanded_paths(), vec![vec![2], vec![2, 5]]);
    assert!(focus(Some(2), vec![]).expanded_paths().is_empty());
}
