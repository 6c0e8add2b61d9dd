//! The Windows backend: window tags and messages, the notification icon, and the popup with its
//! global hooks.
use vstd::prelude::*;

use crate::error::{Error, Result};
use crate::keymap::translate_vk;
use crate::keynav::NavKey;
use crate::menu::{Icon, Menu, MenuId};
use crate::session::{AxAction, Effect, Reaction, Session, WindowKind};
use crate::tray::{TrayCommand, TrayState};

verus! {

/// The message by which the notification icon reports.
pub const WM_TRAY_CALLBACK: u32 = 0x8001;

/// The message that asks for pending work to be done.
pub const WM_MURI_DRAIN: u32 = 0x8002;

pub const WM_ACTIVATEAPP: u32 = 0x001c;

pub const WM_KEYDOWN: u32 = 0x0100;

pub const WM_MOUSEMOVE: u32 = 0x0200;

pub const WM_LBUTTONDOWN: u32 = 0x0201;

pub const WM_LBUTTONUP: u32 = 0x0202;

pub const WM_RBUTTONDOWN: u32 = 0x0204;

/// A hook is to process the event, and not merely to pass it on.
pub const HC_ACTION: i32 = 0;

/// The number a window carries to be recognized by.
pub open spec fn tag_of(kind: WindowKind) -> int {
    match kind {
        WindowKind::Popup => 1,
        WindowKind::Flyout(depth) => 2 + depth,
    }
}

/// The window that carries a number.
pub open spec fn kind_of(tag: int) -> Option<WindowKind> {
    if tag == 1 {
        Some(WindowKind::Popup)
    } else if tag >= 2 {
        Some(WindowKind::Flyout((tag - 2) as usize))
    } else {
        None
    }
}

impl WindowKind {
    /// The number the window carries.
    pub fn tag(self) -> (r: isize)
        requires
            tag_of(self) <= isize::MAX,
        ensures
            r == tag_of(self),
    {
        match self {
            WindowKind::Popup => 1,
            WindowKind::Flyout(depth) => 2 + depth as isize,
        }
    }
}

/// The window that carries `tag`; a window without a tag of ours is none.
pub fn window_kind(tag: isize) -> (r: Option<WindowKind>)
    ensures
        r == kind_of(tag as int),
{
    if tag == 1 {
        Some(WindowKind::Popup)
    } else if tag >= 2 {
        Some(WindowKind::Flyout((tag - 2) as usize))
    } else {
        None
    }
}

/// A window is recognized by its tag, and the tag of no other window is the same. Zero, the tag of
/// a window that was never given one, is nobody's.
pub proof fn law_a_tag_names_its_window(kind: WindowKind, other: WindowKind)
    requires
        tag_of(kind) <= isize::MAX,
    ensures
        kind_of(tag_of(kind)) == Some(kind),
        tag_of(kind) == tag_of(other) ==> kind == other,
        kind_of(0) is None,
{
}

/// The signed value of sixteen bits.
pub open spec fn signed16(bits: int) -> int {
    if bits < 0x8000 {
        bits
    } else {
        bits - 0x10000
    }
}

fn sign_extend(bits: u16) -> (r: i32)
    ensures
        r == signed16(bits as int),
{
    if bits < 0x8000 {
        bits as i32
    } else {
        bits as i32 - 0x10000
    }
}

/// The client position that a mouse message carries: the low sixteen bits of its parameter are the
/// horizontal coordinate, the next sixteen the vertical one, both signed, since a captured pointer
/// may lie left of the window or above it.
pub fn lparam_xy(lparam: u32) -> (r: (i32, i32))
    ensures
        r.0 == signed16(lparam as int % 0x10000),
        r.1 == signed16(lparam as int / 0x10000),
{
    let low: u16 = (lparam % 0x10000) as u16;
    let high: u16 = (lparam / 0x10000) as u16;
    (sign_extend(low), sign_extend(high))
}

/// What a window procedure does with a message.
#[derive(Debug, Clone, Copy, PartialEq, Eq, Structural)]
pub enum WndAction {
    /// Do the pending work.
    Drain,
    /// Queue that the tray icon was clicked.
    TrayClicked,
    /// Queue that the pointer moved to this client position.
    MouseMoved { kind: WindowKind, x: i32, y: i32 },
    /// Queue a click at this client position.
    MouseClick { kind: WindowKind, x: i32, y: i32 },
    /// Queue that another application took over.
    AppDeactivated,
    /// Add the notification icon again, since the taskbar was restarted.
    AddIconAgain,
    /// Nothing; the message is taken care of.
    Nothing,
    /// Leave the message to the system.
    Default,
}

/// Whether the left button was released on the tray icon, by the low half of a callback's
/// parameter.
pub open spec fn tray_released(lparam: u32) -> bool {
    lparam as int % 0x10000 == WM_LBUTTONUP
}

/// The handling of a message. `kind` is the window it is for, where that is one of the menu;
/// `taskbar` the message that announces a new taskbar, zero where it is unknown.
pub open spec fn procedure(
    msg: u32,
    wparam: usize,
    lparam: u32,
    kind: Option<WindowKind>,
    taskbar: u32,
) -> WndAction {
    let x = signed16(lparam as int % 0x10000) as i32;
    let y = signed16(lparam as int / 0x10000) as i32;
    if msg == WM_MURI_DRAIN {
        WndAction::Drain
    } else if msg == WM_TRAY_CALLBACK {
        if tray_released(lparam) {
            WndAction::TrayClicked
        } else {
            WndAction::Nothing
        }
    } else if msg == WM_MOUSEMOVE {
        match kind {
            Some(kind) => WndAction::MouseMoved { kind, x, y },
            None => WndAction::Nothing,
        }
    } else if msg == WM_LBUTTONUP {
        match kind {
            Some(kind) => WndAction::MouseClick { kind, x, y },
            None => WndAction::Nothing,
        }
    } else if msg == WM_ACTIVATEAPP {
        if wparam == 0 {
            WndAction::AppDeactivated
        } else {
            WndAction::Nothing
        }
    } else if msg != 0 && msg == taskbar {
        WndAction::AddIconAgain
    } else {
        WndAction::Default
    }
}

/// Decides what a window procedure does with a message.
pub fn window_message(
    msg: u32,
    wparam: usize,
    lparam: u32,
    kind: Option<WindowKind>,
    taskbar: u32,
) -> (r: WndAction)
    ensures
        r == procedure(msg, wparam, lparam, kind, taskbar),
{
    let (x, y): (i32, i32) = lparam_xy(lparam);
    if msg == WM_MURI_DRAIN {
        WndAction::Drain
    } else if msg == WM_TRAY_CALLBACK {
        if lparam % 0x10000 == WM_LBUTTONUP {
            WndAction::TrayClicked
        } else {
            WndAction::Nothing
        }
    } else if msg == WM_MOUSEMOVE {
        match kind {
            Some(kind) => WndAction::MouseMoved { kind, x, y },
            None => WndAction::Nothing,
        }
    } else if msg == WM_LBUTTONUP {
        match kind {
            Some(kind) => WndAction::MouseClick { kind, x, y },
            None => WndAction::Nothing,
        }
    } else if msg == WM_ACTIVATEAPP {
        if wparam == 0 {
            WndAction::AppDeactivated
        } else {
            WndAction::Nothing
        }
    } else if msg != 0 && msg == taskbar {
        WndAction::AddIconAgain
    } else {
        WndAction::Default
    }
}

/// Whether the mouse hook queues an event: on a press of the left or right button anywhere.
pub fn mouse_hook_queues(code: i32, msg: u32) -> (r: bool)
    ensures
        r == (code == HC_ACTION && (msg == WM_LBUTTONDOWN || msg == WM_RBUTTONDOWN)),
{
    code == HC_ACTION && (msg == WM_LBUTTONDOWN || msg == WM_RBUTTONDOWN)
}

/// The key that the keyboard hook queues, for a key that goes down and means something to a menu.
pub fn keyboard_hook_key(code: i32, msg: u32, vk: u32) -> (r: Option<NavKey>)
    ensures
        r == if code == HC_ACTION && msg == WM_KEYDOWN {
            crate::keymap::vk_key((vk as int % 0x10000) as u16)
        } else {
            None
        },
{
    if code == HC_ACTION && msg == WM_KEYDOWN {
        translate_vk((vk % 0x10000) as u16)
    } else {
        None
    }
}

/// A rectangle in screen pixels: left, top, right, bottom. The right and bottom edges lie outside.
pub open spec fn within(rect: (i32, i32, i32, i32), x: i32, y: i32) -> bool {
    rect.0 <= x < rect.2 && rect.1 <= y < rect.3
}

/// Whether a point lies in some rectangle.
pub fn point_in_any(rects: &[(i32, i32, i32, i32)], x: i32, y: i32) -> (r: bool)
    ensures
        r == exists|k: int| 0 <= k < rects@.len() && within(#[trigger] rects@[k], x, y),
{
    let mut k: usize = 0;
    while k < rects.len()
        invariant
            k <= rects@.len(),
            forall|j: int| 0 <= j < k ==> !within(#[trigger] rects@[j], x, y),
        decreases rects@.len() - k,
    {
        let (l, t, r, b): (i32, i32, i32, i32) = rects[k];
        if x >= l && x < r && y >= t && y < b {
            assert(within(rects@[k as int], x, y));
            return true;
        }
        k = k + 1;
    }
    false
}

/// Whether applications use the dark theme, by the registry value `AppsUseLightTheme`; light where
/// it cannot be read.
pub fn system_is_dark(apps_use_light_theme: Option<u32>) -> (r: bool)
    ensures
        r == (apps_use_light_theme == Some(0u32)),
{
    match apps_use_light_theme {
        Some(value) => value == 0,
        None => false,
    }
}

/// The dots per inch to scale by; the system's 96 where a window reports none.
pub fn effective_dpi(reported: u32) -> (r: u32)
    ensures
        r == if reported == 0 {
            96
        } else {
            reported
        },
{
    if reported == 0 {
        96
    } else {
        reported
    }
}

/// The dots per inch to scale a popup by: those of its monitor, or else the system's.
pub fn popup_dpi(monitor: Option<u32>, system: u32) -> (r: u32)
    ensures
        r == match monitor {
            Some(dpi) => if dpi != 0 {
                dpi
            } else if system == 0 {
                96
            } else {
                system
            },
            None => if system == 0 {
                96
            } else {
                system
            },
        },
{
    match monitor {
        Some(dpi) if dpi != 0 => dpi,
        _ => effective_dpi(system),
    }
}

/// The rectangle to anchor a popup to: that of the tray icon, or, where the shell does not know it,
/// the pixel under the pointer.
pub fn popup_anchor(reported: Option<(i32, i32, i32, i32)>, pointer: Option<(i32, i32)>) -> (r:
    Option<(i32, i32, i32, i32)>)
    requires
        pointer matches Some((x, y)) ==> x < i32::MAX && y < i32::MAX,
    ensures
        r == match reported {
            Some(rect) => Some(rect),
            None => match pointer {
                Some((x, y)) => Some((x, y, (x + 1) as i32, (y + 1) as i32)),
                None => None,
            },
        },
{
    match reported {
        Some(rect) => Some(rect),
        None => match pointer {
            Some((x, y)) => Some((x, y, x + 1, y + 1)),
            None => None,
        },
    }
}

/// The notification icon. The flags say what the shell and the system hold for it.
#[derive(Debug)]
pub struct WindowsAnchor {
    /// The message window that owns the icon exists.
    pub window: bool,
    /// The icon is registered with the shell.
    pub installed: bool,
    /// Kept for a taskbar that is restarted.
    pub tooltip: Option<String>,
    /// A decoded picture is held.
    pub picture: bool,
}

/// How to get the picture for a tray icon.
#[derive(Debug, Clone, Copy, PartialEq, Eq, Structural)]
pub enum PicturePlan {
    /// It is the one that is held.
    Reuse,
    /// Decode it.
    Decode,
    /// There is none for this kind of icon.
    Clear,
}

/// What to give back when a notification icon goes away, in order.
#[derive(Debug, Clone, Copy, PartialEq, Eq, Structural)]
pub enum Release {
    /// Take the icon off the shell.
    Unregister,
    DestroyPicture,
    DestroyWindow,
}

/// The steps that put the notification icon up.
#[derive(Debug, Clone, Copy, PartialEq, Eq, Structural)]
pub enum InstallStep {
    /// Get the picture of the icon.
    Picture,
    /// Create the message window that owns the icon.
    Window,
    /// Register the icon with the shell.
    Register,
}

/// What follows a step of an installation.
#[derive(Debug, Clone, Copy, PartialEq, Eq, Structural)]
pub enum InstallNext {
    Do(InstallStep),
    /// The icon is up.
    Installed,
    /// Give up, and destroy the message window where one was created.
    Stop { destroy_window: bool },
}

/// What follows a step of an installation that worked or failed. The picture comes first, so that
/// bytes that do not decode leave nothing to take down.
pub open spec fn install_next(step: InstallStep, ok: bool) -> InstallNext {
    if !ok {
        InstallNext::Stop { destroy_window: step is Register }
    } else {
        match step {
            InstallStep::Picture => InstallNext::Do(InstallStep::Window),
            InstallStep::Window => InstallNext::Do(InstallStep::Register),
            InstallStep::Register => InstallNext::Installed,
        }
    }
}

/// Decides what follows a step of an installation, by whether the step worked.
pub fn after_install_step(step: InstallStep, ok: bool) -> (r: InstallNext)
    ensures
        r == install_next(step, ok),
{
    match step {
        InstallStep::Picture => if ok {
            InstallNext::Do(InstallStep::Window)
        } else {
            InstallNext::Stop { destroy_window: false }
        },
        InstallStep::Window => if ok {
            InstallNext::Do(InstallStep::Register)
        } else {
            InstallNext::Stop { destroy_window: false }
        },
        InstallStep::Register => if ok {
            InstallNext::Installed
        } else {
            InstallNext::Stop { destroy_window: true }
        },
    }
}

/// How many steps of an installation are left from this one on.
pub open spec fn steps_left(step: InstallStep) -> nat {
    match step {
        InstallStep::Picture => 3,
        InstallStep::Window => 2,
        InstallStep::Register => 1,
    }
}

/// The steps that an installation takes from `step` on, where `works` says which of them work.
pub open spec fn steps_taken(step: InstallStep, works: spec_fn(InstallStep) -> bool) -> Seq<
    InstallStep,
>
    decreases steps_left(step),
{
    match install_next(step, works(step)) {
        InstallNext::Do(next) => seq![step] + steps_taken(next, works),
        _ => seq![step],
    }
}

/// An installation takes its steps in order and none behind one that fails, so an icon that does
/// not decode creates no window and registers nothing. It ends with the icon up exactly where every
/// step worked, and otherwise destroys the message window exactly where it had created one.
pub proof fn law_an_installation_that_fails_leaves_no_window(works: spec_fn(InstallStep) -> bool)
    ensures
        ({
            let taken = steps_taken(InstallStep::Picture, works);
            let end = install_next(taken.last(), works(taken.last()));
            let created = taken.contains(InstallStep::Window) && works(InstallStep::Window);
            &&& taken == if !works(InstallStep::Picture) {
                seq![InstallStep::Picture]
            } else if !works(InstallStep::Window) {
                seq![InstallStep::Picture, InstallStep::Window]
            } else {
                seq![InstallStep::Picture, InstallStep::Window, InstallStep::Register]
            }
            &&& end == if works(InstallStep::Picture) && works(InstallStep::Window) && works(
                InstallStep::Register,
            ) {
                InstallNext::Installed
            } else {
                InstallNext::Stop { destroy_window: created }
            }
        }),
{
    reveal_with_fuel(steps_taken, 3);
    let taken = steps_taken(InstallStep::Picture, works);
    if !works(InstallStep::Picture) {
        assert(taken =~= seq![InstallStep::Picture]);
    } else if !works(InstallStep::Window) {
        assert(taken =~= seq![InstallStep::Picture, InstallStep::Window]);
    } else {
        assert(taken =~= seq![InstallStep::Picture, InstallStep::Window, InstallStep::Register]);
        assert(taken[1] == InstallStep::Window);
    }
}

impl Default for WindowsAnchor {
    fn default() -> (r: Self)
        ensures
            !r.window && !r.installed && r.tooltip is None && !r.picture,
    {
        WindowsAnchor::new()
    }
}

impl WindowsAnchor {
    /// An icon that is not installed.
    pub fn new() -> (r: Self)
        ensures
            !r.window && !r.installed && r.tooltip is None && !r.picture,
    {
        WindowsAnchor { window: false, installed: false, tooltip: None, picture: false }
    }

    /// Copies a tooltip into the field of a shell request.
    pub fn fill_tip(tip: &str, dst: &mut [u16; 128])
        ensures
            ({
                let text = crate::utf16::encoded(tip@).push(0);
                forall|k: int|
                    0 <= k < 128 ==> #[trigger] final(dst)@[k] == if k < crate::utf16::taken(
                        text,
                        128,
                    ) {
                        text[k]
                    } else {
                        old(dst)@[k]
                    }
            }),
    {
        crate::utf16::fill_tip(tip, dst)
    }

    /// Decides how to get the picture of `icon`. `same_source` says that it holds the very bytes
    /// the held picture was decoded from, as on a periodic update.
    pub fn plan_picture(&self, icon: &Icon, same_source: bool) -> (r: PicturePlan)
        ensures
            r is Reuse <==> icon is Png && self.picture && same_source,
            r is Clear <==> !(icon is Png),
    {
        match icon {
            Icon::Png(_) => {
                if self.picture && same_source {
                    PicturePlan::Reuse
                } else {
                    PicturePlan::Decode
                }
            },
            _ => PicturePlan::Clear,
        }
    }

    /// Takes note of how the plan went; `decoded` says whether decoding gave a picture. Says whether
    /// the picture held before has to be destroyed. Bytes that do not decode are an error, and the
    /// held picture stays.
    pub fn picture_resolved(&mut self, plan: PicturePlan, decoded: bool) -> (r: Result<bool>)
        ensures
            final(self).window == old(self).window,
            final(self).installed == old(self).installed,
            final(self).tooltip == old(self).tooltip,
            match plan {
                PicturePlan::Reuse => {
                    &&& r == Ok::<bool, Error>(false)
                    &&& final(self).picture == old(self).picture
                },
                PicturePlan::Decode => if decoded {
                    r == Ok::<bool, Error>(old(self).picture) && final(self).picture
                } else {
                    &&& r matches Err(Error::BadIcon(m)) && m@
                        == "could not decode PNG tray icon bytes"@
                    &&& final(self).picture == old(self).picture
                },
                PicturePlan::Clear => {
                    &&& r == Ok::<bool, Error>(old(self).picture)
                    &&& !final(self).picture
                },
            },
    {
        match plan {
            PicturePlan::Reuse => Ok(false),
            PicturePlan::Decode => {
                if !decoded {
                    return Err(
                        Error::BadIcon("could not decode PNG tray icon bytes".to_owned()),
                    );
                }
                let replaced: bool = self.picture;
                self.picture = true;
                Ok(replaced)
            },
            PicturePlan::Clear => {
                let replaced: bool = self.picture;
                self.picture = false;
                Ok(replaced)
            },
        }
    }

    /// Takes note of the attempt to create the message window, the first half of an installation.
    pub fn window_created(&mut self, created: bool, tooltip: Option<String>) -> (r: Result<()>)
        ensures
            r is Ok <==> created,
            r matches Err(e) ==> crate::error::platform_failure(
                e,
                "failed to create tray message window"@,
            ),
            *final(self) == if created {
                WindowsAnchor { window: true, tooltip, ..*old(self) }
            } else {
                *old(self)
            },
    {
        if !created {
            return Err(Error::Platform("failed to create tray message window".to_owned()));
        }
        self.window = true;
        self.tooltip = tooltip;
        Ok(())
    }

    /// Takes note of the attempt to register the icon, the second half of an installation. After a
    /// failure the message window is gone and has to be destroyed.
    pub fn icon_added(&mut self, added: bool) -> (r: Result<()>)
        ensures
            r is Ok <==> added,
            r matches Err(e) ==> crate::error::install_failure(
                e,
                "Shell_NotifyIcon(NIM_ADD) failed"@,
            ),
            *final(self) == if added {
                WindowsAnchor { installed: true, ..*old(self) }
            } else {
                WindowsAnchor { window: false, ..*old(self) }
            },
    {
        if added {
            self.installed = true;
            Ok(())
        } else {
            self.window = false;
            Err(Error::TrayInstall("Shell_NotifyIcon(NIM_ADD) failed".to_owned()))
        }
    }

    /// Whether a restarted taskbar can be given the icon again.
    pub fn can_readd(&self) -> (r: bool)
        ensures
            r == self.window,
    {
        self.window
    }

    /// Takes note of the attempt to register the icon with a restarted taskbar.
    pub fn icon_readded(&mut self, added: bool) -> (r: Result<()>)
        ensures
            r is Ok <==> added,
            r matches Err(e) ==> crate::error::platform_failure(
                e,
                "Shell_NotifyIcon re-add failed"@,
            ),
            *final(self) == if added {
                WindowsAnchor { installed: true, ..*old(self) }
            } else {
                *old(self)
            },
    {
        if added {
            self.installed = true;
            Ok(())
        } else {
            Err(Error::Platform("Shell_NotifyIcon re-add failed".to_owned()))
        }
    }

    /// Replaces the tooltip; says whether the shell has to be told.
    pub fn set_tooltip(&mut self, tooltip: Option<String>) -> (tell: bool)
        ensures
            tell == old(self).installed,
            *final(self) == (WindowsAnchor { tooltip, ..*old(self) }),
    {
        self.tooltip = tooltip;
        self.installed
    }

    /// Whether the shell knows the icon, so that its picture, visibility or place can be asked of
    /// the shell or changed there.
    pub fn is_live(&self) -> (r: bool)
        ensures
            r == self.installed,
    {
        self.installed
    }

    /// The place of the icon, as the shell reported it; an error where the icon is not installed or
    /// its place is unknown.
    pub fn anchor_rect<T>(&self, reported: Option<T>) -> (r: Result<T>)
        ensures
            match r {
                Ok(place) => self.installed && reported == Some(place),
                Err(e) => (!self.installed || reported is None) && crate::error::platform_failure(
                    e,
                    "tray icon not installed"@,
                ),
            },
    {
        if self.installed {
            if let Some(place) = reported {
                return Ok(place);
            }
        }
        Err(Error::Platform("tray icon not installed".to_owned()))
    }

    /// Whether a popup can be anchored to the tray icon: always.
    pub fn supports_tray_anchor(&self) -> (r: bool)
        ensures
            r,
    {
        true
    }

    /// What to give back when the icon goes away; nothing is left afterwards.
    pub fn release(&mut self) -> (r: Vec<Release>)
        ensures
            r@ == releases(*old(self)),
            !final(self).installed && !final(self).picture && !final(self).window,
    {
        let mut r: Vec<Release> = Vec::new();
        if self.installed {
            r.push(Release::Unregister);
        }
        if self.picture {
            r.push(Release::DestroyPicture);
        }
        if self.window {
            r.push(Release::DestroyWindow);
        }
        assert(r@ =~= releases(*self));
        self.installed = false;
        self.picture = false;
        self.window = false;
        r
    }
}

/// The Windows platform handle.
#[derive(Debug)]
pub struct WindowsPlatform {
    pub anchor: WindowsAnchor,
}

impl Default for WindowsPlatform {
    fn default() -> (r: Self)
        ensures
            !r.anchor.window && !r.anchor.installed && r.anchor.tooltip is None
                && !r.anchor.picture,
    {
        WindowsPlatform::new()
    }
}

impl WindowsPlatform {
    /// A handle with nothing installed.
    pub fn new() -> (r: Self)
        ensures
            !r.anchor.window && !r.anchor.installed && r.anchor.tooltip is None
                && !r.anchor.picture,
    {
        WindowsPlatform { anchor: WindowsAnchor::new() }
    }

    /// Whether a popup can be anchored to the tray icon: always.
    pub fn supports_tray_anchor(&self) -> (r: bool)
        ensures
            r,
    {
        self.anchor.supports_tray_anchor()
    }
}

/// Everything that is held for an icon, the registration first and the window last.
pub open spec fn releases(a: WindowsAnchor) -> Seq<Release> {
    (if a.installed {
        seq![Release::Unregister]
    } else {
        Seq::empty()
    }) + (if a.picture {
        seq![Release::DestroyPicture]
    } else {
        Seq::empty()
    }) + (if a.window {
        seq![Release::DestroyWindow]
    } else {
        Seq::empty()
    })
}

/// Something the Win32 side has to do. Effects are performed in order.
#[derive(Debug, PartialEq, Eq)]
pub enum WinEffect {
    /// An effect on the panels.
    Menu(Effect),
    RemoveMouseHook,
    RemoveKeyboardHook,
    /// Open the popup at its anchor, and record it with [`WinSession::popup_opened`].
    OpenPopup,
    /// Resolve the tray icon anew and show it, where the icon is installed.
    UpdateIcon,
    /// Tell the shell the tooltip.
    UpdateTooltip,
    /// Tell the shell whether the icon is visible.
    UpdateVisible(bool),
    /// Answer with the rectangle of the icon.
    AnswerAnchor,
    /// End the message loop.
    Quit,
}

/// A popup with its hooks.
#[derive(Debug)]
pub struct WinSession {
    pub session: Session,
    pub mouse_hook: bool,
    pub keyboard_hook: bool,
}

/// An event of the menu's windows or hooks, with what it hits in its panel.
#[derive(Debug)]
pub enum UiEvent {
    TrayClicked,
    MouseMoved { kind: WindowKind, row: Option<usize> },
    MouseClick { kind: WindowKind, row: Option<usize>, id: Option<MenuId> },
    Key(NavKey),
    /// A button went down at this place of the screen. `panels` are the rectangles of the open
    /// windows, `icon` that of the tray icon, where it is known.
    GlobalMouseDown {
        x: i32,
        y: i32,
        panels: Vec<(i32, i32, i32, i32)>,
        icon: Option<(i32, i32, i32, i32)>,
    },
    AppDeactivated,
}

/// The effects on panels, as effects of this backend.
pub open spec fn menu_effects(effects: Seq<Effect>) -> Seq<WinEffect> {
    effects.map_values(|e: Effect| WinEffect::Menu(e))
}

/// The hooks that are removed.
pub open spec fn unhooks(w: WinSession) -> Seq<WinEffect> {
    (if w.mouse_hook {
        seq![WinEffect::RemoveMouseHook]
    } else {
        Seq::empty()
    }) + (if w.keyboard_hook {
        seq![WinEffect::RemoveKeyboardHook]
    } else {
        Seq::empty()
    })
}

/// The effects of closing the popup: the hooks, then the windows.
pub open spec fn closing(w: WinSession) -> Seq<WinEffect> {
    unhooks(w) + menu_effects(crate::session::close_effects(w.session@))
}

/// The point is in an open panel or on the tray icon, whose own click decides.
pub open spec fn keeps_open(
    x: i32,
    y: i32,
    panels: Seq<(i32, i32, i32, i32)>,
    icon: Option<(i32, i32, i32, i32)>,
) -> bool {
    ||| exists|k: int| 0 <= k < panels.len() && within(#[trigger] panels[k], x, y)
    ||| icon matches Some(r) && within(r, x, y)
}

/// The popup went from `before` to `after` by closing.
pub open spec fn went_away(before: WinSession, after: WinSession) -> bool {
    &&& after.session@ == crate::session::closed(before.session@)
    &&& !after.mouse_hook
    &&& !after.keyboard_hook
}

/// A reaction of the panels, followed by closing where it dismisses the menu.
pub open spec fn reacted(
    before: WinSession,
    after: WinSession,
    effects: Seq<WinEffect>,
    reaction: (crate::session::Stack, Seq<Effect>, bool),
) -> bool {
    let (s, e, gone) = reaction;
    if gone {
        &&& after.session@ == crate::session::closed(s)
        &&& !after.mouse_hook && !after.keyboard_hook
        &&& effects == menu_effects(e) + unhooks(before) + menu_effects(
            crate::session::close_effects(s),
        )
    } else {
        &&& after.session@ == s
        &&& after.mouse_hook == before.mouse_hook && after.keyboard_hook == before.keyboard_hook
        &&& effects == menu_effects(e)
    }
}

/// The outcome of an event.
pub open spec fn evented(
    before: WinSession,
    event: UiEvent,
    after: WinSession,
    effects: Seq<WinEffect>,
) -> bool {
    match event {
        UiEvent::TrayClicked => if before.session@.popup is Some {
            went_away(before, after) && effects == closing(before)
        } else {
            after == before && effects == seq![WinEffect::OpenPopup]
        },
        UiEvent::MouseMoved { kind, row } => {
            let (s, e) = crate::session::moved_within(before.session@, crate::session::level_of(kind), row);
            reacted(before, after, effects, (s, e, false))
        },
        UiEvent::MouseClick { kind, row, id } => reacted(
            before,
            after,
            effects,
            crate::session::clicked(before.session@, crate::session::level_of(kind), row, id),
        ),
        UiEvent::Key(key) => reacted(
            before,
            after,
            effects,
            crate::session::keyed_aloud(before.session@, key),
        ),
        UiEvent::GlobalMouseDown { x, y, panels, icon } => if before.session@.popup is Some
            && !keeps_open(x, y, panels@, icon) {
            went_away(before, after) && effects == closing(before)
        } else {
            after == before && effects.len() == 0
        },
        UiEvent::AppDeactivated => if before.session@.popup is Some {
            went_away(before, after) && effects == closing(before)
        } else {
            after == before && effects.len() == 0
        },
    }
}

/// The window of the event, if it names one, is at a level that can be counted.
pub open spec fn countable(event: UiEvent) -> bool {
    match event {
        UiEvent::MouseMoved { kind, row: _ } => crate::session::level_of(kind) <= usize::MAX,
        UiEvent::MouseClick { kind, row: _, id: _ } => crate::session::level_of(kind) <= usize::MAX,
        _ => true,
    }
}

fn wrap_effects(effects: Vec<Effect>) -> (r: Vec<WinEffect>)
    ensures
        r@ == menu_effects(effects@),
{
    let mut rest: Vec<Effect> = effects;
    let mut r: Vec<WinEffect> = Vec::new();
    let ghost all = rest@;
    assert(all.skip(0) =~= all);
    while rest.len() > 0
        invariant
            rest@.len() <= all.len(),
            rest@ == all.skip(all.len() - rest@.len()),
            r@ == menu_effects(all.take(all.len() - rest@.len())),
        decreases rest@.len(),
    {
        let ghost at = all.len() - rest@.len();
        let e: Effect = rest.remove(0);
        proof {
            assert(e == all[at]);
            assert(rest@ =~= all.skip(at + 1));
        }
        r.push(WinEffect::Menu(e));
        assert(r@ =~= menu_effects(all.take(at + 1)));
    }
    assert(all.take(all.len() as int) =~= all);
    r
}

impl WinSession {
    /// Hooks only with an open popup, and sound panels.
    pub open spec fn wf(self) -> bool {
        &&& self.session@.wf()
        &&& self.session@.popup is None ==> !self.mouse_hook && !self.keyboard_hook
    }

    /// A session with nothing open.
    pub fn new(menu: Menu) -> (r: Self)
        ensures
            r.wf(),
            r.session@ == (crate::session::Stack { menu, popup: None, flyouts: Seq::empty() }),
            !r.mouse_hook && !r.keyboard_hook,
    {
        WinSession { session: Session::new(menu), mouse_hook: false, keyboard_hook: false }
    }

    /// Records the popup, freshly painted. Its window is then raised, the hooks that are missing
    /// are installed, and the focus is reported.
    pub fn popup_opened(&mut self, rows: Vec<usize>) -> (missing: (bool, bool))
        ensures
            final(self).session@ == (crate::session::Stack {
                popup: Some(crate::session::PanelState { hovered: None, rows: rows@ }),
                ..old(self).session@
            }),
            missing == (!old(self).mouse_hook, !old(self).keyboard_hook),
            final(self).mouse_hook == old(self).mouse_hook,
            final(self).keyboard_hook == old(self).keyboard_hook,
            old(self).wf() ==> final(self).wf(),
    {
        self.session.popup_opened(rows);
        assert(self.session@.parents() =~= old(self).session@.parents());
        (!self.mouse_hook, !self.keyboard_hook)
    }

    /// Records which hooks are installed now.
    pub fn hooks_installed(&mut self, mouse: bool, keyboard: bool)
        ensures
            *final(self) == (WinSession {
                mouse_hook: old(self).mouse_hook || mouse,
                keyboard_hook: old(self).keyboard_hook || keyboard,
                ..*old(self)
            }),
            old(self).wf() && old(self).session@.popup is Some ==> final(self).wf(),
    {
        self.mouse_hook = self.mouse_hook || mouse;
        self.keyboard_hook = self.keyboard_hook || keyboard;
    }

    /// Closes the popup: the hooks first, then the windows, the deepest first. Closing again asks
    /// for nothing.
    pub fn close_popup(&mut self) -> (effects: Vec<WinEffect>)
        ensures
            went_away(*old(self), *final(self)),
            effects@ == closing(*old(self)),
            final(self).wf(),
    {
        let mut effects: Vec<WinEffect> = Vec::new();
        if self.mouse_hook {
            effects.push(WinEffect::RemoveMouseHook);
            self.mouse_hook = false;
        }
        if self.keyboard_hook {
            effects.push(WinEffect::RemoveKeyboardHook);
            self.keyboard_hook = false;
        }
        assert(effects@ =~= unhooks(*old(self)));
        let mut more: Vec<WinEffect> = wrap_effects(self.session.close_popup());
        effects.append(&mut more);
        effects
    }

    fn react(&mut self, r: Reaction) -> (effects: Vec<WinEffect>)
        ensures
            reacted(
                *old(self),
                *final(self),
                effects@,
                (old(self).session@, r.effects@, r.dismissed),
            ),
            old(self).wf() ==> final(self).wf(),
    {
        let mut effects: Vec<WinEffect> = wrap_effects(r.effects);
        if r.dismissed {
            let mut more: Vec<WinEffect> = self.close_popup();
            effects.append(&mut more);
            assert(effects@ =~= menu_effects(r.effects@) + unhooks(*old(self)) + menu_effects(
                crate::session::close_effects(old(self).session@),
            ));
        }
        effects
    }

    /// Applies an event.
    pub fn apply_event(&mut self, event: UiEvent) -> (effects: Vec<WinEffect>)
        requires
            countable(event),
        ensures
            evented(*old(self), event, *final(self), effects@),
            old(self).wf() ==> final(self).wf(),
    {
        match event {
            UiEvent::TrayClicked => {
                if self.session.popup.is_some() {
                    self.close_popup()
                } else {
                    let mut effects: Vec<WinEffect> = Vec::new();
                    effects.push(WinEffect::OpenPopup);
                    assert(effects@ =~= seq![WinEffect::OpenPopup]);
                    effects
                }
            },
            UiEvent::MouseMoved { kind, row } => {
                let effects: Vec<Effect> = self.session.on_cursor(kind.menu_level(), row);
                self.react(Reaction { effects, dismissed: false })
            },
            UiEvent::MouseClick { kind, row, id } => {
                let r: Reaction = self.session.on_click(kind.menu_level(), row, id);
                self.react(r)
            },
            UiEvent::Key(key) => {
                let r: Reaction = self.session.on_key_aloud(key);
                self.react(r)
            },
            UiEvent::GlobalMouseDown { x, y, panels, icon } => {
                if self.session.popup.is_none() {
                    return Vec::new();
                }
                if point_in_any(panels.as_slice(), x, y) {
                    return Vec::new();
                }
                if let Some((l, t, r, b)) = icon {
                    if x >= l && x < r && y >= t && y < b {
                        return Vec::new();
                    }
                }
                self.close_popup()
            },
            UiEvent::AppDeactivated => {
                if self.session.popup.is_some() {
                    self.close_popup()
                } else {
                    Vec::new()
                }
            },
        }
    }

    /// Applies an action of assistive technology on a row, given by its path in the menu of a
    /// window.
    pub fn on_a11y_action(&mut self, kind: WindowKind, row: &[usize], action: AxAction) -> (effects:
        Vec<WinEffect>)
        requires
            crate::session::level_of(kind) <= usize::MAX,
        ensures
            old(self).session@.level_menu(crate::session::level_of(kind)) is None ==> *final(self) == *old(self)
                && effects@.len() == 0,
            old(self).session@.level_menu(crate::session::level_of(kind)) is Some ==> reacted(
                *old(self),
                *final(self),
                effects@,
                crate::session::acted(
                    old(self).session@,
                    crate::flyout::levels(old(self).session@.parents(), crate::session::level_of(kind)) + row@,
                    action,
                ),
            ),
            old(self).wf() ==> final(self).wf(),
    {
        let level: usize = kind.menu_level();
        if self.session.menu_at_level(level).is_none() {
            return Vec::new();
        }
        let path: Vec<usize> = self.session.absolute_path(level, row);
        let r: Reaction = self.session.apply_a11y(path.as_slice(), action);
        self.react(r)
    }
}

/// A tray with its popup.
#[derive(Debug)]
pub struct WinApp {
    pub session: WinSession,
    pub anchor: WindowsAnchor,
    pub tray: TrayState,
}

impl WinApp {
    /// Applies a command.
    pub fn apply_command(&mut self, command: TrayCommand) -> (effects: Vec<WinEffect>)
        ensures
            match command {
                TrayCommand::SetMenu(menu) => {
                    &&& final(self).session.session@ == (crate::session::Stack {
                        menu,
                        flyouts: if old(self).session.session@.popup is Some {
                            Seq::empty()
                        } else {
                            old(self).session.session@.flyouts
                        },
                        ..old(self).session.session@
                    })
                    &&& effects@ == menu_effects(
                        crate::session::repaint_effects(old(self).session.session@),
                    )
                    &&& final(self).session.mouse_hook == old(self).session.mouse_hook
                    &&& final(self).session.keyboard_hook == old(self).session.keyboard_hook
                    &&& final(self).anchor == old(self).anchor
                    &&& final(self).tray == old(self).tray
                },
                TrayCommand::SetIcon(icon) => {
                    &&& *final(self) == (WinApp {
                        tray: TrayState { icon, ..old(self).tray },
                        ..*old(self)
                    })
                    &&& effects@ == if old(self).anchor.installed {
                        seq![WinEffect::UpdateIcon]
                    } else {
                        Seq::empty()
                    }
                },
                TrayCommand::SetTooltip(tooltip) => {
                    &&& *final(self) == (WinApp {
                        tray: TrayState { tooltip, ..old(self).tray },
                        anchor: WindowsAnchor { tooltip, ..old(self).anchor },
                        ..*old(self)
                    })
                    &&& effects@ == if old(self).anchor.installed {
                        seq![WinEffect::UpdateTooltip]
                    } else {
                        Seq::empty()
                    }
                },
                TrayCommand::SetTitle(title) => {
                    &&& *final(self) == (WinApp {
                        tray: TrayState { title, ..old(self).tray },
                        ..*old(self)
                    })
                    &&& effects@.len() == 0
                },
                TrayCommand::SetVisible(visible) => {
                    &&& *final(self) == *old(self)
                    &&& effects@ == if old(self).anchor.installed {
                        seq![WinEffect::UpdateVisible(visible)]
                    } else {
                        Seq::empty()
                    }
                },
                TrayCommand::Open => {
                    &&& *final(self) == *old(self)
                    &&& effects@ == if old(self).session.session@.popup is None {
                        seq![WinEffect::OpenPopup]
                    } else {
                        Seq::empty()
                    }
                },
                TrayCommand::Close => {
                    &&& went_away(old(self).session, final(self).session)
                    &&& effects@ == closing(old(self).session)
                    &&& final(self).anchor == old(self).anchor
                    &&& final(self).tray == old(self).tray
                },
                TrayCommand::Shutdown => *final(self) == *old(self) && effects@ == seq![
                    WinEffect::Quit,
                ],
                TrayCommand::SetTheme | TrayCommand::SetOptions => {
                    &&& final(self).session.session@ == (crate::session::Stack {
                        flyouts: if old(self).session.session@.popup is Some {
                            Seq::empty()
                        } else {
                            old(self).session.session@.flyouts
                        },
                        ..old(self).session.session@
                    })
                    &&& effects@ == menu_effects(
                        crate::session::repaint_effects(old(self).session.session@),
                    )
                    &&& final(self).session.mouse_hook == old(self).session.mouse_hook
                    &&& final(self).session.keyboard_hook == old(self).session.keyboard_hook
                    &&& final(self).anchor == old(self).anchor
                    &&& final(self).tray == old(self).tray
                },
                TrayCommand::QueryAnchorRect => *final(self) == *old(self) && effects@ == seq![
                    WinEffect::AnswerAnchor,
                ],
            },
            old(self).session.wf() ==> final(self).session.wf(),
    {
        let mut effects: Vec<WinEffect> = Vec::new();
        match command {
            TrayCommand::SetMenu(menu) => {
                return wrap_effects(self.session.session.set_menu(menu));
            },
            TrayCommand::SetIcon(icon) => {
                self.tray.icon = icon;
                if self.anchor.is_live() {
                    effects.push(WinEffect::UpdateIcon);
                    assert(effects@ =~= seq![WinEffect::UpdateIcon]);
                }
            },
            TrayCommand::SetTooltip(tooltip) => {
                let kept: Option<String> = match &tooltip {
                    Some(tip) => Some(tip.clone()),
                    None => None,
                };
                self.tray.tooltip = tooltip;
                if self.anchor.set_tooltip(kept) {
                    effects.push(WinEffect::UpdateTooltip);
                    assert(effects@ =~= seq![WinEffect::UpdateTooltip]);
                }
            },
            TrayCommand::SetTitle(title) => {
                self.tray.title = title;
            },
            TrayCommand::SetVisible(visible) => {
                if self.anchor.is_live() {
                    effects.push(WinEffect::UpdateVisible(visible));
                    assert(effects@ =~= seq![WinEffect::UpdateVisible(visible)]);
                }
            },
            TrayCommand::Open => {
                if self.session.session.popup.is_none() {
                    effects.push(WinEffect::OpenPopup);
                    assert(effects@ =~= seq![WinEffect::OpenPopup]);
                }
            },
            TrayCommand::Close => {
                return self.session.close_popup();
            },
            TrayCommand::Shutdown => {
                effects.push(WinEffect::Quit);
                assert(effects@ =~= seq![WinEffect::Quit]);
            },
            TrayCommand::SetTheme | TrayCommand::SetOptions => {
                return wrap_effects(self.session.session.repaint_open_popup());
            },
            TrayCommand::QueryAnchorRect => {
                effects.push(WinEffect::AnswerAnchor);
                assert(effects@ =~= seq![WinEffect::AnswerAnchor]);
            },
        }
        effects
    }
}

/// Closing a popup that is closed asks for nothing, so a session may be closed once more when it
/// goes away.
pub proof fn law_closing_twice_is_closing_once(before: WinSession, after: WinSession)
    requires
        went_away(before, after),
    ensures
        closing(after) == Seq::<WinEffect>::empty(),
{
    crate::outcome::law_dismissing_twice_is_dismissing_once(before.session@);
    assert(closing(after) =~= Seq::<WinEffect>::empty());
}

/// The position of a mouse message reads back as it was packed, also left of the window and above
/// it, for a move and for a click in every window of the menu.
pub proof fn law_a_position_reads_back(
    x: int,
    y: int,
    lparam: u32,
    wparam: usize,
    kind: WindowKind,
    taskbar: u32,
)
    requires
        -0x8000 <= x < 0x8000,
        -0x8000 <= y < 0x8000,
        lparam == (if x < 0 {
            x + 0x10000
        } else {
            x
        }) + 0x10000 * (if y < 0 {
            y + 0x10000
        } else {
            y
        }),
    ensures
        procedure(0x0200, wparam, lparam, Some(kind), taskbar) == (WndAction::MouseMoved {
            kind,
            x: x as i32,
            y: y as i32,
        }),
        procedure(0x0202, wparam, lparam, Some(kind), taskbar) == (WndAction::MouseClick {
            kind,
            x: x as i32,
            y: y as i32,
        }),
        signed16(lparam as int % 0x10000) == x,
        signed16(lparam as int / 0x10000) == y,
{
}

/// What a window procedure does with a message: it drains on its own request, opens on a released
/// left button over the icon, reports another application that takes over, adds the icon to a new
/// taskbar, passes over the mouse outside the windows of the menu, and leaves the rest to the
/// system.
pub proof fn law_what_messages_do(
    msg: u32,
    wparam: usize,
    lparam: u32,
    kind: Option<WindowKind>,
    taskbar: u32,
)
    ensures
        ({
            let r = procedure(msg, wparam, lparam, kind, taskbar);
            let own = msg == 0x8002 || msg == 0x8001 || msg == 0x0200 || msg == 0x0202 || msg
                == 0x001c;
            &&& r is Drain <==> msg == 0x8002
            &&& r is TrayClicked <==> msg == 0x8001 && lparam % 0x10000 == 0x0202
            &&& r is MouseMoved <==> msg == 0x0200 && kind is Some
            &&& r is MouseClick <==> msg == 0x0202 && kind is Some
            &&& r is AppDeactivated <==> msg == 0x001c && wparam == 0
            &&& r is AddIconAgain <==> !own && msg != 0 && msg == taskbar
            &&& r is Default <==> !own && !(msg != 0 && msg == taskbar)
        }),
{
}

/// A rectangle holds its left and top edges and not its right and bottom ones.
pub proof fn law_a_rectangle_ends_before_its_far_edges(
    left: i32,
    top: i32,
    right: i32,
    bottom: i32,
    x: i32,
    y: i32,
)
    ensures
        within((left, top, right, bottom), x, y) <==> left <= x && x < right && top <= y && y
            < bottom,
        left < right && top < bottom ==> within((left, top, right, bottom), left, top),
        !within((left, top, right, bottom), right, y),
        !within((left, top, right, bottom), x, bottom),
{
}

/// What goes with an icon is exactly what is held for it, the registration before the window.
pub proof fn law_an_icon_gives_back_what_it_holds(a: WindowsAnchor)
    ensures
        releases(a).contains(Release::Unregister) <==> a.installed,
        releases(a).contains(Release::DestroyPicture) <==> a.picture,
        releases(a).contains(Release::DestroyWindow) <==> a.window,
        releases(a).no_duplicates(),
        a.installed ==> releases(a)[0] == Release::Unregister,
        a.window ==> releases(a).last() == Release::DestroyWindow,
{
    let all = releases(a);
    let one = if a.installed {
        1int
    } else {
        0
    };
    let two = if a.picture {
        1int
    } else {
        0
    };
    if a.installed {
        assert(all[0] == Release::Unregister);
    }
    if a.picture {
        assert(all[one] == Release::DestroyPicture);
    }
    if a.window {
        assert(all[one + two] == Release::DestroyWindow);
    }
}

/// Nothing of the menu is open and no hook is installed.
pub open spec fn all_closed(w: WinSession) -> bool {
    w.session@.popup is None && w.session@.flyouts.len() == 0 && !w.mouse_hook && !w.keyboard_hook
}

/// Effects on panels are passed on one for one, in order.
pub proof fn law_effects_are_passed_on(effects: Seq<Effect>, k: int)
    requires
        0 <= k < effects.len(),
    ensures
        menu_effects(effects).len() == effects.len(),
        menu_effects(effects)[k] == WinEffect::Menu(effects[k]),
{
}

/// Closing removes exactly the hooks that are installed, before any window, and closes every open
/// window.
pub proof fn law_closing_removes_the_hooks_first(w: WinSession, level: usize)
    requires
        w.session@.wf(),
        w.session@.flyouts.len() <= usize::MAX,
    ensures
        ({
            let all = closing(w);
            let hooks = (if w.mouse_hook {
                1int
            } else {
                0
            }) + (if w.keyboard_hook {
                1int
            } else {
                0
            });
            let windows = w.session@.flyouts.len() as int + if w.session@.popup is Some {
                1int
            } else {
                0
            };
            &&& all.len() == hooks + windows
            &&& w.mouse_hook ==> all[0] == WinEffect::RemoveMouseHook
            &&& w.keyboard_hook ==> all[hooks - 1] == WinEffect::RemoveKeyboardHook
            &&& forall|k: int|
                0 <= k < windows ==> all[hooks + k] == #[trigger] close_window(
                    w.session@.flyouts.len() - k,
                )
        }),
{
    crate::conduct::law_dismissing_goes_from_the_deepest_up(w.session@);
    let all = closing(w);
    let hooks = unhooks(w).len() as int;
    let ends = crate::session::close_effects(w.session@);
    assert forall|k: int| 0 <= k < ends.len() implies all[hooks + k] == #[trigger] close_window(
        w.session@.flyouts.len() - k,
    ) by {
        assert(all[hooks + k] == menu_effects(ends)[k]);
        assert(ends[k] == Effect::Close((w.session@.flyouts.len() - k) as usize));
    }
}

/// The window of a level closes.
pub open spec fn close_window(level: int) -> WinEffect {
    WinEffect::Menu(Effect::Close(level as usize))
}

/// A click on the tray icon opens a menu that is closed and closes one that is open; a press
/// elsewhere, another application, and Escape close it too; a press in a panel or on the icon keeps
/// it; and with nothing open none of them does anything.
pub proof fn law_what_opens_and_closes_the_menu(
    before: WinSession,
    event: UiEvent,
    after: WinSession,
    effects: Seq<WinEffect>,
)
    requires
        before.wf(),
        evented(before, event, after, effects),
    ensures
        ({
            let open = before.session@.popup is Some;
            let kept = after == before && effects.len() == 0;
            let shut = all_closed(after) && after.session@.menu == before.session@.menu && effects
                == closing(before);
            &&& event is TrayClicked && open ==> shut
            &&& event is TrayClicked && !open ==> after == before && effects == seq![
                WinEffect::OpenPopup,
            ]
            &&& event is AppDeactivated ==> if open {
                shut
            } else {
                kept
            }
            &&& event == UiEvent::Key(NavKey::Escape) ==> shut
            &&& event matches UiEvent::GlobalMouseDown { x, y, panels, icon } ==> {
                let inside = (exists|k: int|
                    0 <= k < panels@.len() && (#[trigger] panels@[k]).0 <= x && x < panels@[k].2
                        && panels@[k].1 <= y && y < panels@[k].3) || (icon matches Some(r) && r.0
                    <= x && x < r.2 && r.1 <= y && y < r.3);
                if open && !inside {
                    shut
                } else {
                    kept
                }
            }
            &&& event is MouseMoved ==> after.mouse_hook == before.mouse_hook && after.keyboard_hook
                == before.keyboard_hook && (open ==> after.session@.popup is Some)
        }),
{
    crate::conduct::law_what_keys_dismiss(before.session@, NavKey::Escape);
    if event == UiEvent::Key(NavKey::Escape) {
        assert(menu_effects(Seq::<Effect>::empty()) =~= Seq::<WinEffect>::empty());
        assert(effects =~= closing(before));
    }
    match event {
        UiEvent::GlobalMouseDown { x, y, panels, icon } => {
            assert(keeps_open(x, y, panels@, icon) == ((exists|k: int|
                0 <= k < panels@.len() && (#[trigger] panels@[k]).0 <= x && x < panels@[k].2
                    && panels@[k].1 <= y && y < panels@[k].3) || (icon matches Some(r) && r.0 <= x
                && x < r.2 && r.1 <= y && y < r.3))) by {
                if exists|k: int|
                    0 <= k < panels@.len() && (#[trigger] panels@[k]).0 <= x && x < panels@[k].2
                        && panels@[k].1 <= y && y < panels@[k].3 {
                    let k = choose|k: int|
                        0 <= k < panels@.len() && (#[trigger] panels@[k]).0 <= x && x < panels@[k].2
                            && panels@[k].1 <= y && y < panels@[k].3;
                    assert(within(panels@[k], x, y));
                }
            }
        },
        _ => {},
    }
}

/// A click on a row that dispatches hands its id over first and then closes everything; a click on a
/// submenu row, a key that only moves the selection and a move of the pointer leave the hooks alone
/// and the popup open.
pub proof fn law_a_click_dispatches_and_closes(
    before: WinSession,
    after: WinSession,
    effects: Seq<WinEffect>,
    kind: WindowKind,
    row: Option<usize>,
    id: MenuId,
)
    requires
        before.wf(),
        before.session@.popup is Some,
        crate::session::level_of(kind) <= before.session@.flyouts.len() <= usize::MAX,
        evented(before, UiEvent::MouseClick { kind, row, id: Some(id) }, after, effects),
    ensures
        ({
            let s = before.session@;
            let level = crate::session::level_of(kind);
            let here = crate::menu::descended(s.menu, s.parents().take(level))->0;
            let parent = row is Some && crate::conduct::opens_a_submenu(here, row->0 as int);
            &&& parent ==> after.session@.popup == s.popup && after.mouse_hook == before.mouse_hook
                && after.keyboard_hook == before.keyboard_hook
            &&& !parent ==> all_closed(after)
            &&& !parent && id.0@.len() > 0 ==> effects == seq![
                WinEffect::Menu(Effect::Dispatch(id)),
            ] + closing(before)
            &&& !parent && id.0@.len() == 0 ==> effects == closing(before)
        }),
{
    let s = before.session@;
    let level = crate::session::level_of(kind);
    let lays = |path: Seq<usize>| None::<Seq<usize>>;
    crate::conduct::law_a_click_opens_or_dispatches(s, level as usize, row, Some(id), lays);
    let sent = crate::session::clicked(s, level, row, Some(id)).1;
    if id.0@.len() > 0 {
        assert(menu_effects(seq![Effect::Dispatch(id)]) =~= seq![
            WinEffect::Menu(Effect::Dispatch(id)),
        ]);
        assert(seq![WinEffect::Menu(Effect::Dispatch(id))] + unhooks(before) + menu_effects(
            crate::session::close_effects(s),
        ) =~= seq![WinEffect::Menu(Effect::Dispatch(id))] + closing(before));
    } else {
        assert(menu_effects(Seq::<Effect>::empty()) + unhooks(before) + menu_effects(
            crate::session::close_effects(s),
        ) =~= closing(before));
    }
}

/// What keeps the menu open reaches the panels as it is: a key that does not dismiss, a move and a
/// click that does not dismiss leave the panels and ask for the effects that the session says, and
/// leave the hooks alone.
pub proof fn law_events_reach_the_panels(
    before: WinSession,
    event: UiEvent,
    after: WinSession,
    effects: Seq<WinEffect>,
)
    requires
        evented(before, event, after, effects),
    ensures
        ({
            let s = before.session@;
            let outcome = match event {
                UiEvent::Key(key) => Some(crate::session::keyed_aloud(s, key)),
                UiEvent::MouseMoved { kind, row } => Some(
                    (
                        crate::session::moved_within(s, crate::session::level_of(kind), row).0,
                        crate::session::moved_within(s, crate::session::level_of(kind), row).1,
                        false,
                    ),
                ),
                UiEvent::MouseClick { kind, row, id } => Some(
                    crate::session::clicked(s, crate::session::level_of(kind), row, id),
                ),
                _ => None,
            };
            outcome matches Some((panels, asked, dismissed)) ==> if dismissed {
                all_closed(after) && after.session@.menu == panels.menu && effects.take(
                    asked.len() as int,
                ) == asked.map_values(|e: Effect| WinEffect::Menu(e))
            } else {
                after.session@ == panels && after.mouse_hook == before.mouse_hook
                    && after.keyboard_hook == before.keyboard_hook && effects == asked.map_values(
                    |e: Effect| WinEffect::Menu(e),
                )
            }
        }),
{
    let s = before.session@;
    match event {
        UiEvent::Key(key) => {
            let asked = crate::session::keyed_aloud(s, key).1;
            assert(effects.take(asked.len() as int) =~= menu_effects(asked));
        },
        UiEvent::MouseClick { kind, row, id } => {
            let asked = crate::session::clicked(s, crate::session::level_of(kind), row, id).1;
            assert(effects.take(asked.len() as int) =~= menu_effects(asked));
        },
        _ => {},
    }
}

} // verus!
