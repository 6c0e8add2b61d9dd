//! The decision core of a tray-icon and popup-menu system.

pub mod conduct;
pub mod error;
pub mod flyout;
pub mod gdi;
pub mod keymap;
pub mod keynav;
pub mod linux;
pub mod mac;
pub mod menu;
pub mod outcome;
pub mod pixels;
pub mod platform;
pub mod session;
pub mod sni;
pub mod style;
pub mod text;
pub mod theme;
pub mod tray;
pub mod utf16;
pub mod wayland;
pub mod windows;
pub mod x11;
