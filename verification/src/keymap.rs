//! From the key codes of each windowing system to navigation keys.
use vstd::prelude::*;

use crate::keynav::NavKey;
use crate::text::is_control;

verus! {

/// The character of key `code` in a keyboard row that begins at key `first`.
pub open spec fn in_row(code: int, first: int, row: Seq<char>) -> Option<char> {
    if first <= code < first + row.len() {
        Some(row[code - first])
    } else {
        None
    }
}

/// The character of an evdev key on a US keyboard: the number row and the three letter rows.
pub open spec fn us_char(code: u32) -> Option<char> {
    if in_row(code as int, 2, "1234567890"@) is Some {
        in_row(code as int, 2, "1234567890"@)
    } else if in_row(code as int, 16, "qwertyuiop"@) is Some {
        in_row(code as int, 16, "qwertyuiop"@)
    } else if in_row(code as int, 30, "asdfghjkl"@) is Some {
        in_row(code as int, 30, "asdfghjkl"@)
    } else {
        in_row(code as int, 44, "zxcvbnm"@)
    }
}

/// The US-keyboard character of an evdev key code, in lower case, for type-ahead.
pub fn evdev_us_char(code: u32) -> (r: Option<char>)
    ensures
        r == us_char(code),
{
    proof {
        reveal_strlit("1234567890");
        reveal_strlit("qwertyuiop");
        reveal_strlit("asdfghjkl");
        reveal_strlit("zxcvbnm");
    }
    let c: char = match code {
        16 => 'q',
        17 => 'w',
        18 => 'e',
        19 => 'r',
        20 => 't',
        21 => 'y',
        22 => 'u',
        23 => 'i',
        24 => 'o',
        25 => 'p',
        30 => 'a',
        31 => 's',
        32 => 'd',
        33 => 'f',
        34 => 'g',
        35 => 'h',
        36 => 'j',
        37 => 'k',
        38 => 'l',
        44 => 'z',
        45 => 'x',
        46 => 'c',
        47 => 'v',
        48 => 'b',
        49 => 'n',
        50 => 'm',
        2 => '1',
        3 => '2',
        4 => '3',
        5 => '4',
        6 => '5',
        7 => '6',
        8 => '7',
        9 => '8',
        10 => '9',
        11 => '0',
        _ => {
            return None;
        },
    };
    Some(c)
}

/// The navigation key of an evdev key code. The navigation keys do not depend on the layout; the
/// characters assume a US keyboard.
pub open spec fn evdev_key(code: u32) -> Option<NavKey> {
    if code == 1 {
        Some(NavKey::Escape)
    } else if code == 28 || code == 96 || code == 57 {
        Some(NavKey::Activate)
    } else if code == 103 {
        Some(NavKey::Up)
    } else if code == 108 {
        Some(NavKey::Down)
    } else if code == 105 {
        Some(NavKey::Left)
    } else if code == 106 {
        Some(NavKey::Right)
    } else if code == 102 {
        Some(NavKey::Home)
    } else if code == 107 {
        Some(NavKey::End)
    } else {
        match us_char(code) {
            Some(c) => Some(NavKey::Char(c)),
            None => None,
        }
    }
}

/// Translates an evdev key code, as a Wayland compositor delivers it.
pub fn evdev_to_navkey(code: u32) -> (r: Option<NavKey>)
    ensures
        r == evdev_key(code),
{
    match code {
        1 => Some(NavKey::Escape),
        28 | 96 | 57 => Some(NavKey::Activate),
        103 => Some(NavKey::Up),
        108 => Some(NavKey::Down),
        105 => Some(NavKey::Left),
        106 => Some(NavKey::Right),
        102 => Some(NavKey::Home),
        107 => Some(NavKey::End),
        other => match evdev_us_char(other) {
            Some(c) => Some(NavKey::Char(c)),
            None => None,
        },
    }
}

/// The navigation key of an X11 keysym. A printable ASCII keysym is its own character.
pub open spec fn keysym_key(keysym: u32) -> Option<NavKey> {
    if keysym == 0xff52 {
        Some(NavKey::Up)
    } else if keysym == 0xff54 {
        Some(NavKey::Down)
    } else if keysym == 0xff51 {
        Some(NavKey::Left)
    } else if keysym == 0xff53 {
        Some(NavKey::Right)
    } else if keysym == 0xff0d || keysym == 0xff8d || keysym == 0x20 {
        Some(NavKey::Activate)
    } else if keysym == 0xff1b {
        Some(NavKey::Escape)
    } else if keysym == 0xff50 {
        Some(NavKey::Home)
    } else if keysym == 0xff57 {
        Some(NavKey::End)
    } else if 0x21 <= keysym <= 0x7e {
        Some(NavKey::Char(keysym as char))
    } else {
        None
    }
}

/// Translates an X11 keysym.
pub fn keysym_to_navkey(keysym: u32) -> (r: Option<NavKey>)
    ensures
        r == keysym_key(keysym),
{
    match keysym {
        0xff52 => Some(NavKey::Up),
        0xff54 => Some(NavKey::Down),
        0xff51 => Some(NavKey::Left),
        0xff53 => Some(NavKey::Right),
        0xff0d | 0xff8d => Some(NavKey::Activate),
        0x0020 => Some(NavKey::Activate),
        0xff1b => Some(NavKey::Escape),
        0xff50 => Some(NavKey::Home),
        0xff57 => Some(NavKey::End),
        _ => {
            if 0x21 <= keysym && keysym <= 0x7e {
                let byte: u8 = keysym as u8;
                Some(NavKey::Char(byte as char))
            } else {
                None
            }
        },
    }
}

/// How many key codes an X server reports between `min` and `max`, where the range is not inverted
/// and its size fits the one byte that the request for the keyboard map has for it.
pub fn keycode_range_count(min: u8, max: u8) -> (r: Option<u8>)
    ensures
        r is Some <==> min <= max && max - min + 1 <= u8::MAX,
        r matches Some(n) ==> n == max - min + 1,
{
    if max < min {
        return None;
    }
    let span: u8 = max - min;
    span.checked_add(1)
}

/// The primary keysym of a key code, in a map of `per` keysyms for each key code from `min` on.
pub open spec fn primary_keysym(keymap: Seq<u32>, min: u8, per: u8, keycode: u8) -> Option<u32> {
    let at = (keycode - min) * per;
    if min <= keycode && at < keymap.len() {
        Some(keymap[at])
    } else {
        None
    }
}

/// Translates an X11 key code by the keyboard map of the server. A key code below the map or
/// beyond its end is no key.
pub fn translate_key(keymap: &[u32], min: u8, per: u8, keycode: u8) -> (r: Option<NavKey>)
    ensures
        r == match primary_keysym(keymap@, min, per, keycode) {
            Some(keysym) => keysym_key(keysym),
            None => None,
        },
{
    if keycode < min {
        return None;
    }
    let place: u8 = keycode - min;
    assert(0 <= place * per <= 255 * 255) by (nonlinear_arith)
        requires
            0 <= place <= 255,
            0 <= per <= 255,
    ;
    let at: usize = place as usize * per as usize;
    if at < keymap.len() {
        keysym_to_navkey(keymap[at])
    } else {
        None
    }
}

/// The navigation key of a Win32 virtual-key code. A letter or digit key is its character, letters
/// in lower case.
pub open spec fn vk_key(vk: u16) -> Option<NavKey> {
    if vk == 0x28 {
        Some(NavKey::Down)
    } else if vk == 0x26 {
        Some(NavKey::Up)
    } else if vk == 0x27 {
        Some(NavKey::Right)
    } else if vk == 0x25 {
        Some(NavKey::Left)
    } else if vk == 0x0d || vk == 0x20 {
        Some(NavKey::Activate)
    } else if vk == 0x1b {
        Some(NavKey::Escape)
    } else if vk == 0x24 {
        Some(NavKey::Home)
    } else if vk == 0x23 {
        Some(NavKey::End)
    } else if 0x30 <= vk <= 0x39 {
        Some(NavKey::Char(vk as char))
    } else if 0x41 <= vk <= 0x5a {
        Some(NavKey::Char(crate::text::lower(vk as char)))
    } else {
        None
    }
}

/// Translates a Win32 virtual-key code.
pub fn translate_vk(vk: u16) -> (r: Option<NavKey>)
    ensures
        r == vk_key(vk),
{
    match vk {
        0x28 => Some(NavKey::Down),
        0x26 => Some(NavKey::Up),
        0x27 => Some(NavKey::Right),
        0x25 => Some(NavKey::Left),
        0x0d | 0x20 => Some(NavKey::Activate),
        0x1b => Some(NavKey::Escape),
        0x24 => Some(NavKey::Home),
        0x23 => Some(NavKey::End),
        _ => {
            if 0x30 <= vk && vk <= 0x39 {
                let byte: u8 = vk as u8;
                Some(NavKey::Char(byte as char))
            } else if 0x41 <= vk && vk <= 0x5a {
                let byte: u8 = vk as u8;
                Some(NavKey::Char((byte + 32) as char))
            } else {
                None
            }
        },
    }
}

/// The navigation key of an AppKit key event: by its key code, which does not depend on the
/// layout, and else by the first character it types, unless that is a control character.
pub open spec fn mac_key(code: u16, typed: Option<Seq<char>>) -> Option<NavKey> {
    if code == 125 {
        Some(NavKey::Down)
    } else if code == 126 {
        Some(NavKey::Up)
    } else if code == 124 {
        Some(NavKey::Right)
    } else if code == 123 {
        Some(NavKey::Left)
    } else if code == 36 || code == 76 || code == 49 {
        Some(NavKey::Activate)
    } else if code == 53 {
        Some(NavKey::Escape)
    } else if code == 115 {
        Some(NavKey::Home)
    } else if code == 119 {
        Some(NavKey::End)
    } else {
        match typed {
            Some(text) => if text.len() > 0 && !crate::text::control(text[0]) {
                Some(NavKey::Char(text[0]))
            } else {
                None
            },
            None => None,
        }
    }
}

/// Translates an AppKit key event. `typed` is the text of the event without its modifiers.
pub fn translate_ns_key(code: u16, typed: Option<&str>) -> (r: Option<NavKey>)
    ensures
        r == mac_key(
            code,
            match typed {
                Some(text) => Some(text@),
                None => None,
            },
        ),
{
    match code {
        125 => Some(NavKey::Down),
        126 => Some(NavKey::Up),
        124 => Some(NavKey::Right),
        123 => Some(NavKey::Left),
        36 | 76 | 49 => Some(NavKey::Activate),
        53 => Some(NavKey::Escape),
        115 => Some(NavKey::Home),
        119 => Some(NavKey::End),
        _ => match typed {
            Some(text) => {
                if text.is_empty() {
                    return None;
                }
                let c: char = text.get_char(0);
                if is_control(c) {
                    None
                } else {
                    Some(NavKey::Char(c))
                }
            },
            None => None,
        },
    }
}

/// Every letter and digit key types ahead with the same character on a US keyboard under Wayland,
/// X11 and Windows.
pub proof fn law_type_ahead_agrees(c: char)
    requires
        'a' <= c <= 'z' || '0' <= c <= '9',
    ensures
        keysym_key(c as u32) == Some(NavKey::Char(c)),
        exists|vk: u16| #[trigger] vk_key(vk) == Some(NavKey::Char(c)),
        exists|code: u32| #[trigger] evdev_key(code) == Some(NavKey::Char(c)),
{
    let vk = if c <= '9' {
        c as u16
    } else {
        (c as u16 - 32) as u16
    };
    assert(vk_key(vk) == Some(NavKey::Char(c)));
    reveal_strlit("1234567890");
    reveal_strlit("qwertyuiop");
    reveal_strlit("asdfghjkl");
    reveal_strlit("zxcvbnm");
    let digits = "1234567890"@;
    let upper = "qwertyuiop"@;
    let home = "asdfghjkl"@;
    let lower = "zxcvbnm"@;
    assert(digits.contains(c) || upper.contains(c) || home.contains(c) || lower.contains(c)) by {
        assert(digits[0] == '1' && digits[1] == '2' && digits[2] == '3' && digits[3] == '4'
            && digits[4] == '5' && digits[5] == '6' && digits[6] == '7' && digits[7] == '8'
            && digits[8] == '9' && digits[9] == '0');
        assert(upper[0] == 'q' && upper[1] == 'w' && upper[2] == 'e' && upper[3] == 'r' && upper[4]
            == 't' && upper[5] == 'y' && upper[6] == 'u' && upper[7] == 'i' && upper[8] == 'o'
            && upper[9] == 'p');
        assert(home[0] == 'a' && home[1] == 's' && home[2] == 'd' && home[3] == 'f' && home[4]
            == 'g' && home[5] == 'h' && home[6] == 'j' && home[7] == 'k' && home[8] == 'l');
        assert(lower[0] == 'z' && lower[1] == 'x' && lower[2] == 'c' && lower[3] == 'v' && lower[4]
            == 'b' && lower[5] == 'n' && lower[6] == 'm');
    }
    if digits.contains(c) {
        let k = choose|k: int| 0 <= k < digits.len() && digits[k] == c;
        assert(evdev_key((2 + k) as u32) == Some(NavKey::Char(c)));
    } else if upper.contains(c) {
        let k = choose|k: int| 0 <= k < upper.len() && upper[k] == c;
        assert(evdev_key((16 + k) as u32) == Some(NavKey::Char(c)));
    } else if home.contains(c) {
        let k = choose|k: int| 0 <= k < home.len() && home[k] == c;
        assert(evdev_key((30 + k) as u32) == Some(NavKey::Char(c)));
    } else {
        let k = choose|k: int| 0 <= k < lower.len() && lower[k] == c;
        assert(evdev_key((44 + k) as u32) == Some(NavKey::Char(c)));
    }
}

/// The key codes that navigate, and no others: on every system the arrows, Home and End, Escape, and
/// Enter on either side of the keyboard and Space to activate.
pub proof fn law_the_keys_that_navigate(code: u32, keysym: u32, vk: u16, mac: u16, text: Option<Seq<char>>)
    ensures
        evdev_key(code) == Some(NavKey::Up) <==> code == 103,
        evdev_key(code) == Some(NavKey::Down) <==> code == 108,
        evdev_key(code) == Some(NavKey::Left) <==> code == 105,
        evdev_key(code) == Some(NavKey::Right) <==> code == 106,
        evdev_key(code) == Some(NavKey::Home) <==> code == 102,
        evdev_key(code) == Some(NavKey::End) <==> code == 107,
        evdev_key(code) == Some(NavKey::Escape) <==> code == 1,
        evdev_key(code) == Some(NavKey::Activate) <==> code == 28 || code == 96 || code == 57,
        keysym_key(keysym) == Some(NavKey::Up) <==> keysym == 0xff52,
        keysym_key(keysym) == Some(NavKey::Down) <==> keysym == 0xff54,
        keysym_key(keysym) == Some(NavKey::Left) <==> keysym == 0xff51,
        keysym_key(keysym) == Some(NavKey::Right) <==> keysym == 0xff53,
        keysym_key(keysym) == Some(NavKey::Home) <==> keysym == 0xff50,
        keysym_key(keysym) == Some(NavKey::End) <==> keysym == 0xff57,
        keysym_key(keysym) == Some(NavKey::Escape) <==> keysym == 0xff1b,
        keysym_key(keysym) == Some(NavKey::Activate) <==> keysym == 0xff0d || keysym == 0xff8d
            || keysym == 0x20,
        vk_key(vk) == Some(NavKey::Up) <==> vk == 0x26,
        vk_key(vk) == Some(NavKey::Down) <==> vk == 0x28,
        vk_key(vk) == Some(NavKey::Left) <==> vk == 0x25,
        vk_key(vk) == Some(NavKey::Right) <==> vk == 0x27,
        vk_key(vk) == Some(NavKey::Home) <==> vk == 0x24,
        vk_key(vk) == Some(NavKey::End) <==> vk == 0x23,
        vk_key(vk) == Some(NavKey::Escape) <==> vk == 0x1b,
        vk_key(vk) == Some(NavKey::Activate) <==> vk == 0x0d || vk == 0x20,
        mac_key(mac, text) == Some(NavKey::Up) <==> mac == 126,
        mac_key(mac, text) == Some(NavKey::Down) <==> mac == 125,
        mac_key(mac, text) == Some(NavKey::Left) <==> mac == 123,
        mac_key(mac, text) == Some(NavKey::Right) <==> mac == 124,
        mac_key(mac, text) == Some(NavKey::Home) <==> mac == 115,
        mac_key(mac, text) == Some(NavKey::End) <==> mac == 119,
        mac_key(mac, text) == Some(NavKey::Escape) <==> mac == 53,
        mac_key(mac, text) == Some(NavKey::Activate) <==> mac == 36 || mac == 76 || mac == 49,
{
}

/// What a key types: on X11 the printable character that the keysym is, under Windows the letter in
/// lower case or the digit of the key, on macOS the first character of the text unless it is a
/// control character. A key that navigates types nothing.
pub proof fn law_the_keys_that_type(keysym: u32, vk: u16, mac: u16, text: Option<Seq<char>>, c: char)
    ensures
        keysym_key(keysym) == Some(NavKey::Char(c)) <==> keysym == c as u32 && '!' <= c <= '~',
        vk_key(vk) == Some(NavKey::Char(c)) <==> ('0' <= c <= '9' && vk == c as u16) || ('a' <= c
            <= 'z' && vk + 32 == c as u16),
        mac_key(mac, text) == Some(NavKey::Char(c)) ==> text is Some && text->0.len() > 0
            && text->0[0] == c && !(c <= '\u{1f}' || '\u{7f}' <= c <= '\u{9f}'),
        text is Some && text->0.len() > 0 && !(text->0[0] <= '\u{1f}' || '\u{7f}' <= text->0[0]
            <= '\u{9f}') ==> mac_key(mac, text) is Some,
        (text is None || text->0.len() == 0) && mac_key(mac, text) is Some ==> !(mac_key(
            mac,
            text,
        )->0 is Char),
{
}

/// The evdev codes run along the rows of a US keyboard: the digits from the second code on, then
/// the three rows of letters, each key one code after its left neighbor. No other code types.
pub proof fn law_evdev_codes_run_along_the_rows(code: u32, k: int)
    ensures
        0 <= k < 10 ==> us_char((2 + k) as u32) == Some("1234567890"@[k]),
        0 <= k < 10 ==> us_char((16 + k) as u32) == Some("qwertyuiop"@[k]),
        0 <= k < 9 ==> us_char((30 + k) as u32) == Some("asdfghjkl"@[k]),
        0 <= k < 7 ==> us_char((44 + k) as u32) == Some("zxcvbnm"@[k]),
        us_char(code) is Some <==> 2 <= code < 12 || 16 <= code < 26 || 30 <= code < 39 || 44
            <= code < 51,
        us_char(code) is Some ==> evdev_key(code) == Some(NavKey::Char(us_char(code)->0)),
{
    reveal_strlit("1234567890");
    reveal_strlit("qwertyuiop");
    reveal_strlit("asdfghjkl");
    reveal_strlit("zxcvbnm");
}

/// The keyboard map of an X server is read by key code: the first key code of the map has the first
/// keysym, each further one the keysym that lies one group further, and a key code outside the map
/// has none.
pub proof fn law_the_keyboard_map_is_read_by_groups(keymap: Seq<u32>, min: u8, per: u8, keycode: u8)
    ensures
        keycode < min ==> primary_keysym(keymap, min, per, keycode) is None,
        keymap.len() > 0 ==> primary_keysym(keymap, min, per, min) == Some(keymap[0]),
        min <= keycode < u8::MAX && keymap.len() > per ==> primary_keysym(
            keymap,
            min,
            per,
            (keycode + 1) as u8,
        ) == primary_keysym(keymap.skip(per as int), min, per, keycode),
        min <= keycode && keymap.len() <= (keycode - min) * per ==> primary_keysym(
            keymap,
            min,
            per,
            keycode,
        ) is None,
        min <= keycode && keymap.len() > (keycode - min) * per ==> primary_keysym(
            keymap,
            min,
            per,
            keycode,
        ) is Some,
{
    assert(0 * per == 0);
    assert((keycode + 1 - min) * per == (keycode - min) * per + per) by (nonlinear_arith);
    if min <= keycode {
        assert(0 <= (keycode - min) * per) by (nonlinear_arith)
            requires
                min <= keycode,
                0 <= per,
        ;
    }
}

} // verus!
