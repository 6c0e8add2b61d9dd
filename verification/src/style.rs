//! Colors, as a menu row names them and as a pixel holds them.
use vstd::prelude::*;

verus! {

/// A straight-alpha color with eight bits per channel.
#[derive(Debug, Clone, Copy, PartialEq, Eq, Structural)]
pub struct Rgba {
    pub r: u8,
    pub g: u8,
    pub b: u8,
    pub a: u8,
}

/// A literal color, or a role that the active theme resolves.
#[derive(Debug, Clone, Copy, PartialEq, Eq, Structural)]
pub enum Color {
    Rgba(u8, u8, u8, u8),
    Label,
    SecondaryLabel,
    Accent,
    Separator,
    SystemRed,
    SystemOrange,
    SystemGreen,
    SystemYellow,
}

/// The color of a palette entry read from the host.
pub open spec fn literal(entry: (u8, u8, u8, u8)) -> Color {
    Color::Rgba(entry.0, entry.1, entry.2, entry.3)
}

} // verus!
