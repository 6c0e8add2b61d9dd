//! The colors of a theme, and what a theme that follows the host takes over from it.
use vstd::prelude::*;

use crate::platform::SystemPalette;
use crate::style::Color;
use crate::text::{same_text, setting_value};

verus! {

/// The colors of a resolved theme.
#[derive(Debug, Clone, Copy, PartialEq, Eq, Structural)]
pub struct Theme {
    pub accent: Color,
    pub label: Color,
    pub secondary_label: Color,
    pub separator: Color,
    pub background: Color,
}

/// `theme` with the host's accent, where the theme follows the host and the host has one.
pub open spec fn accented(
    theme: Theme,
    follows_host: bool,
    accent: Option<(u8, u8, u8, u8)>,
) -> Theme {
    if follows_host {
        Theme { accent: crate::platform::overridden(theme.accent, accent), ..theme }
    } else {
        theme
    }
}

/// Takes the host's accent over into a theme that follows the host. A theme that was chosen
/// explicitly stays as authored.
pub fn inject_accent(theme: &mut Theme, follows_host: bool, accent: Option<(u8, u8, u8, u8)>)
    ensures
        *final(theme) == accented(*old(theme), follows_host, accent),
{
    if follows_host {
        if let Some((r, g, b, a)) = accent {
            theme.accent = Color::Rgba(r, g, b, a);
        }
    }
}

/// Takes the host's accent and menu colors over into a theme that follows the host; says whether
/// the background must be made opaque, because the host has transparency switched off.
pub fn inject_system(
    theme: &mut Theme,
    follows_host: bool,
    accent: Option<(u8, u8, u8, u8)>,
    palette: &SystemPalette,
    transparency_enabled: bool,
) -> (opaque: bool)
    ensures
        !follows_host ==> *final(theme) == *old(theme),
        follows_host ==> *final(theme) == crate::platform::repainted(
            accented(*old(theme), true, accent),
            *palette,
        ),
        opaque == (follows_host && !transparency_enabled),
{
    if !follows_host {
        return false;
    }
    inject_accent(theme, true, accent);
    palette.apply_to(theme);
    !transparency_enabled
}

/// The color of a named GNOME accent.
pub open spec fn named_accent(name: Seq<char>) -> Option<(u8, u8, u8)> {
    if name == "blue"@ {
        Some((0x35, 0x84, 0xe4))
    } else if name == "teal"@ {
        Some((0x21, 0x90, 0xa4))
    } else if name == "green"@ {
        Some((0x3a, 0x94, 0x4a))
    } else if name == "yellow"@ {
        Some((0xc8, 0x88, 0x00))
    } else if name == "orange"@ {
        Some((0xed, 0x5b, 0x00))
    } else if name == "red"@ {
        Some((0xe6, 0x2d, 0x42))
    } else if name == "pink"@ {
        Some((0xd5, 0x61, 0x99))
    } else if name == "purple"@ {
        Some((0x91, 0x41, 0xac))
    } else if name == "slate"@ {
        Some((0x6f, 0x83, 0x96))
    } else {
        None
    }
}

/// Reads the accent color from a printed `accent-color` setting; `None` for a name without a known
/// color.
pub fn system_accent(raw: &str) -> (r: Option<(u8, u8, u8, u8)>)
    ensures
        r == match named_accent(crate::text::setting(raw@)) {
            Some((red, green, blue)) => Some((red, green, blue, 255u8)),
            None => None::<(u8, u8, u8, u8)>,
        },
{
    let name: &str = setting_value(raw);
    if same_text(name, "blue") {
        Some((0x35, 0x84, 0xe4, 255))
    } else if same_text(name, "teal") {
        Some((0x21, 0x90, 0xa4, 255))
    } else if same_text(name, "green") {
        Some((0x3a, 0x94, 0x4a, 255))
    } else if same_text(name, "yellow") {
        Some((0xc8, 0x88, 0x00, 255))
    } else if same_text(name, "orange") {
        Some((0xed, 0x5b, 0x00, 255))
    } else if same_text(name, "red") {
        Some((0xe6, 0x2d, 0x42, 255))
    } else if same_text(name, "pink") {
        Some((0xd5, 0x61, 0x99, 255))
    } else if same_text(name, "purple") {
        Some((0x91, 0x41, 0xac, 255))
    } else if same_text(name, "slate") {
        Some((0x6f, 0x83, 0x96, 255))
    } else {
        None
    }
}

/// The accent of the host reaches a theme exactly where the theme follows the host and the host has
/// an accent, and it changes nothing but the accent.
pub proof fn law_only_a_following_theme_takes_the_accent(
    theme: Theme,
    follows_host: bool,
    accent: Option<(u8, u8, u8, u8)>,
)
    ensures
        ({
            let after = accented(theme, follows_host, accent);
            &&& after.label == theme.label && after.secondary_label == theme.secondary_label
                && after.separator == theme.separator && after.background == theme.background
            &&& follows_host ==> (accent matches Some((r, g, b, a)) ==> after.accent == Color::Rgba(
                r,
                g,
                b,
                a,
            ))
            &&& !follows_host || accent is None ==> after == theme
        }),
{
}

/// The accents that have a color are the nine of the desktop, each with a color of its own.
pub proof fn law_each_accent_has_its_own_color(a: Seq<char>, b: Seq<char>)
    ensures
        named_accent(a) is Some <==> a == "blue"@ || a == "teal"@ || a == "green"@ || a
            == "yellow"@ || a == "orange"@ || a == "red"@ || a == "pink"@ || a == "purple"@ || a
            == "slate"@,
        named_accent(a) is Some && named_accent(a) == named_accent(b) ==> a == b,
{
    reveal_strlit("blue");
    reveal_strlit("teal");
    reveal_strlit("green");
    reveal_strlit("yellow");
    reveal_strlit("orange");
    reveal_strlit("red");
    reveal_strlit("pink");
    reveal_strlit("purple");
    reveal_strlit("slate");
    assert("blue"@[0] == 'b' && "teal"@[0] == 't' && "green"@[0] == 'g' && "yellow"@[0] == 'y'
        && "orange"@[0] == 'o' && "red"@[0] == 'r' && "slate"@[0] == 's');
    assert("pink"@[1] == 'i' && "purple"@[1] == 'u' && "pink"@[0] == 'p' && "purple"@[0] == 'p');
}

} // verus!
