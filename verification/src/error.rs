//! The errors a platform backend reports.
use vstd::prelude::*;

verus! {

/// A capability a platform cannot offer by design.
#[derive(Debug, Clone, Copy, PartialEq, Eq, Structural)]
pub enum Unsupported {
    /// Anchoring a popup to the tray icon: the host never reveals where the icon is.
    TrayAnchor,
    /// Placing a toplevel from the client side: the display protocol forbids it.
    ClientPositioning,
}

/// What went wrong while installing a tray or showing a popup.
#[derive(Debug, PartialEq, Eq)]
#[non_exhaustive]
pub enum Error {
    /// The platform cannot do this at all.
    Unsupported(Unsupported),
    /// The icon bytes could not be decoded.
    BadIcon(String),
    /// The tray item could not be registered.
    TrayInstall(String),
    /// Something that belongs on the main thread was asked for elsewhere.
    MainThread,
    /// The background UI thread could not be started.
    ThreadSpawn(String),
    /// A call into the windowing system failed; the message names which.
    Platform(String),
}

/// The result of a platform operation.
pub type Result<T> = std::result::Result<T, Error>;

/// `e` is a residual platform failure with exactly this message.
pub open spec fn platform_failure(e: Error, message: Seq<char>) -> bool {
    e matches Error::Platform(m) && m@ == message
}

/// `e` is a tray registration failure with exactly this message.
pub open spec fn install_failure(e: Error, message: Seq<char>) -> bool {
    e matches Error::TrayInstall(m) && m@ == message
}

} // verus!
