//! The seam between the menu engine and the host: the values both sides exchange.
use std::path::PathBuf;

use vstd::prelude::*;

use crate::keynav::NavKey;
use crate::linux::LinuxPlatform;
use crate::style::Color;
use crate::theme::Theme;

verus! {

/// `std::path::PathBuf`, carried through as an opaque value.
#[verifier::external_type_specification]
#[verifier::external_body]
pub struct ExPathBuf(PathBuf);

/// Where the face data of the host's menu font comes from.
#[derive(Debug)]
pub enum SystemFontSource {
    /// The bytes of a font file.
    Data(Vec<u8>),
    /// A font file to read.
    Path(PathBuf),
    /// A family that is installed already, by its name.
    Family(String),
}

/// The host's live menu colors. An unset entry leaves the color of the theme in place.
#[derive(Debug, Clone, Copy)]
pub struct SystemPalette {
    /// Primary text.
    pub label: Option<(u8, u8, u8, u8)>,
    /// De-emphasized text.
    pub secondary_label: Option<(u8, u8, u8, u8)>,
    /// Separator lines.
    pub separator: Option<(u8, u8, u8, u8)>,
    /// The menu background, where the host draws an opaque one.
    pub background: Option<(u8, u8, u8, u8)>,
}

/// `base`, unless the host set its own color.
pub open spec fn overridden(base: Color, entry: Option<(u8, u8, u8, u8)>) -> Color {
    match entry {
        Some(c) => crate::style::literal(c),
        None => base,
    }
}

/// `theme` with the entries of `palette` in place of its colors.
pub open spec fn repainted(theme: Theme, palette: SystemPalette) -> Theme {
    Theme {
        accent: theme.accent,
        label: overridden(theme.label, palette.label),
        secondary_label: overridden(theme.secondary_label, palette.secondary_label),
        separator: overridden(theme.separator, palette.separator),
        background: overridden(theme.background, palette.background),
    }
}

impl Default for SystemPalette {
    fn default() -> (r: Self)
        ensures
            r == (SystemPalette {
                label: None,
                secondary_label: None,
                separator: None,
                background: None,
            }),
    {
        SystemPalette { label: None, secondary_label: None, separator: None, background: None }
    }
}

impl SystemPalette {
    /// Paints the entries that are set onto `theme`.
    pub fn apply_to(&self, theme: &mut Theme)
        ensures
            *final(theme) == repainted(*old(theme), *self),
    {
        if let Some((r, g, b, a)) = self.label {
            theme.label = Color::Rgba(r, g, b, a);
        }
        if let Some((r, g, b, a)) = self.secondary_label {
            theme.secondary_label = Color::Rgba(r, g, b, a);
        }
        if let Some((r, g, b, a)) = self.separator {
            theme.separator = Color::Rgba(r, g, b, a);
        }
        if let Some((r, g, b, a)) = self.background {
            theme.background = Color::Rgba(r, g, b, a);
        }
    }
}

/// An empty palette changes nothing, and painting a palette twice is painting it once.
pub proof fn law_palette_paints_once(theme: Theme, palette: SystemPalette)
    ensures
        repainted(
            theme,
            SystemPalette { label: None, secondary_label: None, separator: None, background: None },
        ) == theme,
        repainted(repainted(theme, palette), palette) == repainted(theme, palette),
{
}

/// Whether the host shows a light or a dark appearance.
#[derive(Debug, Clone, Copy, PartialEq, Eq, Structural)]
pub enum Appearance {
    Light,
    Dark,
}

impl Appearance {
    /// Whether this appearance is dark.
    pub fn is_dark(self) -> (r: bool)
        ensures
            r == (self is Dark),
    {
        match self {
            Appearance::Dark => true,
            Appearance::Light => false,
        }
    }

    /// The appearance for a host that reports whether it is dark.
    pub fn from_is_dark(is_dark: bool) -> (r: Self)
        ensures
            r is Dark <==> is_dark,
    {
        if is_dark {
            Appearance::Dark
        } else {
            Appearance::Light
        }
    }
}

/// An event of the host's event loop in a form that names no toolkit.
#[derive(Debug, Clone, Copy, PartialEq, Eq, Structural)]
#[non_exhaustive]
pub enum PlatformEvent {
    /// The tray icon was clicked.
    TrayActivated,
    /// A key was pressed while a popup held the focus.
    Key(NavKey),
    /// Every window of the menu lost the focus.
    Dismissed,
}

/// The platform of this build.
pub type PlatformImpl = LinuxPlatform;

/// A fresh handle to the platform of this build.
pub fn current() -> (r: PlatformImpl)
    ensures
        !r.installed,
{
    LinuxPlatform::new()
}

/// A palette paints each of its colors onto the part of the theme that it is for, and leaves the
/// rest and the accent alone.
pub proof fn law_a_palette_paints_what_it_sets(theme: Theme, palette: SystemPalette)
    ensures
        ({
            let after = repainted(theme, palette);
            &&& after.accent == theme.accent
            &&& after.label == match palette.label {
                Some((r, g, b, a)) => Color::Rgba(r, g, b, a),
                None => theme.label,
            }
            &&& after.secondary_label == match palette.secondary_label {
                Some((r, g, b, a)) => Color::Rgba(r, g, b, a),
                None => theme.secondary_label,
            }
            &&& after.separator == match palette.separator {
                Some((r, g, b, a)) => Color::Rgba(r, g, b, a),
                None => theme.separator,
            }
            &&& after.background == match palette.background {
                Some((r, g, b, a)) => Color::Rgba(r, g, b, a),
                None => theme.background,
            }
        }),
{
}

} // verus!
