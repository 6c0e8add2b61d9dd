//! The macOS backend: the status item, and the popup with its focus-driven dismissal.
use std::collections::HashSet;

use vstd::prelude::*;

use crate::error::{Error, Result};
use crate::keynav::NavKey;
use crate::menu::{Menu, MenuId};
use crate::session::{AxAction, Effect, Reaction, Session, WindowKind};
use crate::text::characters;
use crate::tray::{TrayCommand, TrayState};

verus! {

broadcast use vstd::std_specs::hash::group_hash_axioms;

/// Something the AppKit side has to do. Effects are performed in order.
#[derive(Debug, PartialEq, Eq)]
pub enum MacEffect {
    /// An effect on the panels.
    Menu(Effect),
    /// Open the popup at its anchor, and record it with [`MacSession::popup_opened`].
    OpenPopup,
    /// Take down the monitors and observers that watch for clicks elsewhere.
    RemoveWatchers,
    /// Render the status item's picture, title and tooltip anew.
    UpdateStatus,
    /// Show the tooltip of the status item.
    UpdateTooltip,
    /// Show or hide the status item.
    UpdateVisible(bool),
    /// Take the status item off the menu bar.
    RemoveStatusItem,
    /// End the application's event loop.
    StopRunLoop,
    /// Answer with the rectangle of the status item.
    AnswerAnchor,
}

/// A popup, with the panels that hold the keyboard focus.
#[derive(Debug)]
pub struct MacSession {
    pub session: Session,
    /// The levels whose panels are key windows.
    pub focused: HashSet<usize>,
    /// The last panel with the focus gave it up, and no other has taken it yet.
    pub dismiss_armed: bool,
    /// Clicks elsewhere are being watched for.
    pub watchers: bool,
}

/// An event of the panels or watchers, with what it hits in its panel.
#[derive(Debug)]
pub enum MacEvent {
    TrayClicked,
    MouseMoved { kind: WindowKind, row: Option<usize> },
    MouseDown { kind: WindowKind, row: Option<usize>, id: Option<MenuId> },
    /// The pointer left a panel; `outside` says whether it is in no panel now.
    MouseExited { outside: bool },
    Key(NavKey),
    /// A panel became or ceased to be the key window.
    FocusChanged { kind: WindowKind, key: bool },
    /// A button went down somewhere; `outside` says whether that is in no panel and not on the
    /// status item.
    OutsideClick { outside: bool },
    /// Another menu opened, or the application is no longer the active one.
    Dismiss,
    /// Assistive technology acts on a row, given by its path in the menu of a panel.
    A11yAction { kind: WindowKind, path: Vec<usize>, action: AxAction },
}

/// The effects on panels, as effects of this backend.
pub open spec fn menu_effects(effects: Seq<Effect>) -> Seq<MacEffect> {
    effects.map_values(|e: Effect| MacEffect::Menu(e))
}

/// The effects of closing the popup: the windows, then the watchers.
pub open spec fn closing(m: MacSession) -> Seq<MacEffect> {
    menu_effects(crate::session::close_effects(m.session@)) + if m.watchers {
        seq![MacEffect::RemoveWatchers]
    } else {
        Seq::empty()
    }
}

/// Nothing is open, focused, armed or watched.
pub open spec fn gone(before: crate::session::Stack, after: MacSession) -> bool {
    &&& after.session@ == crate::session::closed(before)
    &&& after.focused@ == Set::<usize>::empty()
    &&& !after.dismiss_armed
    &&& !after.watchers
}

/// The parts beside the panels are as they were.
pub open spec fn same_focus(a: MacSession, b: MacSession) -> bool {
    &&& a.focused@ == b.focused@
    &&& a.dismiss_armed == b.dismiss_armed
    &&& a.watchers == b.watchers
}

/// A reaction of the panels, followed by closing where it dismisses the menu.
pub open spec fn reacted(
    before: MacSession,
    after: MacSession,
    effects: Seq<MacEffect>,
    reaction: (crate::session::Stack, Seq<Effect>, bool),
) -> bool {
    let (s, e, dismissed) = reaction;
    if dismissed {
        &&& gone(s, after)
        &&& effects == menu_effects(e) + menu_effects(crate::session::close_effects(s)) + (
        if before.watchers {
            seq![MacEffect::RemoveWatchers]
        } else {
            Seq::empty()
        })
    } else {
        &&& after.session@ == s
        &&& same_focus(after, before)
        &&& effects == menu_effects(e)
    }
}

/// The stack after the pointer left every panel: the flyouts close, the popup stays without a
/// highlight.
pub open spec fn left(s: crate::session::Stack) -> crate::session::Stack {
    s.truncated(0).selected(0, None)
}

/// The outcome of an event.
pub open spec fn evented(
    before: MacSession,
    event: MacEvent,
    after: MacSession,
    effects: Seq<MacEffect>,
) -> bool {
    let s = before.session@;
    match event {
        MacEvent::TrayClicked => if s.popup is Some {
            gone(s, after) && effects == closing(before)
        } else {
            after == before && effects == seq![MacEffect::OpenPopup]
        },
        MacEvent::MouseMoved { kind, row } => {
            let (t, e) = crate::session::moved_within(s, crate::session::level_of(kind), row);
            reacted(before, after, effects, (t, e, false))
        },
        MacEvent::MouseDown { kind, row, id } => reacted(
            before,
            after,
            effects,
            crate::session::clicked(s, crate::session::level_of(kind), row, id),
        ),
        MacEvent::MouseExited { outside } => if s.popup is Some && outside {
            &&& after.session@ == left(s)
            &&& same_focus(after, before)
            &&& effects == menu_effects(
                crate::session::closes(s.flyouts.len() as int, 0) + (if s.top() is Some {
                    seq![Effect::Redraw(0)]
                } else {
                    Seq::empty()
                }) + seq![Effect::Sync],
            )
        } else {
            after == before && effects.len() == 0
        },
        MacEvent::Key(key) => reacted(before, after, effects, crate::session::keyed_aloud(s, key)),
        MacEvent::FocusChanged { kind, key } => {
            &&& after.session@ == s
            &&& after.watchers == before.watchers
            &&& effects.len() == 0
            &&& if key {
                &&& after.focused@ == before.focused@.insert(
                    crate::session::level_of(kind) as usize,
                )
                &&& !after.dismiss_armed
            } else {
                &&& after.focused@ == before.focused@.remove(
                    crate::session::level_of(kind) as usize,
                )
                &&& after.dismiss_armed == (before.dismiss_armed || after.focused@
                    == Set::<usize>::empty())
            }
        },
        MacEvent::OutsideClick { outside } => if s.popup is Some && outside {
            gone(s, after) && effects == closing(before)
        } else {
            after == before && effects.len() == 0
        },
        MacEvent::Dismiss => if s.popup is Some {
            gone(s, after) && effects == closing(before)
        } else {
            after == before && effects.len() == 0
        },
        MacEvent::A11yAction { kind, path, action } => {
            let level = crate::session::level_of(kind);
            if s.level_menu(level) is None {
                after == before && effects.len() == 0
            } else {
                reacted(
                    before,
                    after,
                    effects,
                    crate::session::acted(
                        s,
                        crate::flyout::levels(s.parents(), level) + path@,
                        action,
                    ),
                )
            }
        },
    }
}

/// The window of the event, if it names one, is at a level that can be counted.
pub open spec fn countable(event: MacEvent) -> bool {
    match event {
        MacEvent::MouseMoved { kind, row: _ } => crate::session::level_of(kind) <= usize::MAX,
        MacEvent::MouseDown { kind, row: _, id: _ } => crate::session::level_of(kind)
            <= usize::MAX,
        MacEvent::FocusChanged { kind, key: _ } => crate::session::level_of(kind) <= usize::MAX,
        MacEvent::A11yAction { kind, path: _, action: _ } => crate::session::level_of(kind)
            <= usize::MAX,
        _ => true,
    }
}

/// A lost focus counts: it was armed, nobody took it up, and there is a popup to dismiss.
pub open spec fn focus_is_lost(m: MacSession) -> bool {
    m.dismiss_armed && m.focused@ == Set::<usize>::empty() && m.session@.popup is Some
}

/// The focus may pass between panels of the menu: where one gives it up and another takes it, the
/// menu is not dismissed, whichever panels they are.
pub proof fn law_passing_the_focus_keeps_the_menu(
    first: MacSession,
    between: MacSession,
    last: MacSession,
    from: WindowKind,
    to: WindowKind,
    none1: Seq<MacEffect>,
    none2: Seq<MacEffect>,
)
    requires
        evented(first, MacEvent::FocusChanged { kind: from, key: false }, between, none1),
        evented(between, MacEvent::FocusChanged { kind: to, key: true }, last, none2),
    ensures
        !focus_is_lost(last),
        last.session@ == first.session@,
        none1.len() == 0 && none2.len() == 0,
{
}

/// Where the only panel with the focus gives it up and nobody takes it, the focus is lost.
pub proof fn law_giving_up_the_last_focus_dismisses(
    first: MacSession,
    last: MacSession,
    from: WindowKind,
    none: Seq<MacEffect>,
)
    requires
        first.session@.popup is Some,
        first.focused@ == set![crate::session::level_of(from) as usize],
        evented(first, MacEvent::FocusChanged { kind: from, key: false }, last, none),
    ensures
        focus_is_lost(last),
{
    assert(last.focused@ =~= Set::<usize>::empty());
}

fn wrap_effects(effects: Vec<Effect>) -> (r: Vec<MacEffect>)
    ensures
        r@ == menu_effects(effects@),
{
    let mut rest: Vec<Effect> = effects;
    let mut r: Vec<MacEffect> = Vec::new();
    let ghost all = rest@;
    assert(all.skip(0) =~= all);
    while rest.len() > 0
        invariant
            rest@.len() <= all.len(),
            rest@ == all.skip(all.len() - rest@.len()),
            r@ == menu_effects(all.take(all.len() - rest@.len())),
        decreases rest@.len(),
    {
        let ghost at = all.len() - rest@.len();
        let e: Effect = rest.remove(0);
        proof {
            assert(e == all[at]);
            assert(rest@ =~= all.skip(at + 1));
        }
        r.push(MacEffect::Menu(e));
        assert(r@ =~= menu_effects(all.take(at + 1)));
    }
    assert(all.take(all.len() as int) =~= all);
    r
}

fn holds_nothing(focused: &HashSet<usize>) -> (r: bool)
    ensures
        r == (focused@ == Set::<usize>::empty()),
{
    assert(focused@.is_empty() ==> focused@ =~= Set::<usize>::empty());
    focused.is_empty()
}

impl MacSession {
    /// Watchers only with an open popup, and sound panels.
    pub open spec fn wf(self) -> bool {
        &&& self.session@.wf()
        &&& self.session@.popup is None ==> !self.watchers
    }

    /// A session with nothing open.
    pub fn new(menu: Menu) -> (r: Self)
        ensures
            r.wf(),
            r.session@ == (crate::session::Stack { menu, popup: None, flyouts: Seq::empty() }),
            r.focused@ == Set::<usize>::empty(),
            !r.dismiss_armed && !r.watchers,
    {
        MacSession {
            session: Session::new(menu),
            focused: HashSet::new(),
            dismiss_armed: false,
            watchers: false,
        }
    }

    /// Records the popup, freshly painted, and that clicks elsewhere are watched for from now on.
    pub fn popup_opened(&mut self, rows: Vec<usize>)
        ensures
            final(self).session@ == (crate::session::Stack {
                popup: Some(crate::session::PanelState { hovered: None, rows: rows@ }),
                ..old(self).session@
            }),
            final(self).watchers,
            final(self).focused@ == old(self).focused@,
            final(self).dismiss_armed == old(self).dismiss_armed,
            old(self).wf() ==> final(self).wf(),
    {
        self.session.popup_opened(rows);
        assert(self.session@.parents() =~= old(self).session@.parents());
        self.watchers = true;
    }

    /// Closes the popup and forgets its focus.
    pub fn close_popup(&mut self) -> (effects: Vec<MacEffect>)
        ensures
            gone(old(self).session@, *final(self)),
            effects@ == closing(*old(self)),
            final(self).wf(),
    {
        let mut effects: Vec<MacEffect> = wrap_effects(self.session.close_popup());
        self.focused.clear();
        self.dismiss_armed = false;
        if self.watchers {
            effects.push(MacEffect::RemoveWatchers);
            self.watchers = false;
        }
        assert(effects@ =~= closing(*old(self)));
        effects
    }

    fn react(&mut self, r: Reaction) -> (effects: Vec<MacEffect>)
        ensures
            reacted(
                *old(self),
                *final(self),
                effects@,
                (old(self).session@, r.effects@, r.dismissed),
            ),
            old(self).wf() ==> final(self).wf(),
    {
        let mut effects: Vec<MacEffect> = wrap_effects(r.effects);
        if r.dismissed {
            let mut more: Vec<MacEffect> = self.close_popup();
            effects.append(&mut more);
            assert(effects@ =~= menu_effects(r.effects@) + menu_effects(
                crate::session::close_effects(old(self).session@),
            ) + (if old(self).watchers {
                seq![MacEffect::RemoveWatchers]
            } else {
                Seq::empty()
            }));
        }
        effects
    }

    fn on_exit(&mut self) -> (effects: Vec<MacEffect>)
        requires
            old(self).session@.popup is Some,
        ensures
            evented(*old(self), MacEvent::MouseExited { outside: true }, *final(self), effects@),
            old(self).wf() ==> final(self).wf(),
    {
        let mut effects: Vec<Effect> = self.session.truncate_flyouts(0);
        let ghost s1 = self.session@;
        let cleared: bool = match &self.session.popup {
            Some(p) => p.hovered.is_some(),
            None => false,
        };
        self.session.select(0, None);
        proof {
            assert(self.session@.parents() =~= s1.parents());
            crate::session::lemma_same_parents_wf(s1, self.session@);
        }
        if cleared {
            effects.push(Effect::Redraw(0));
        }
        effects.push(Effect::Sync);
        proof {
            let s = old(self).session@;
            assert(effects@ =~= crate::session::closes(s.flyouts.len() as int, 0) + (if s.top()
                is Some {
                seq![Effect::Redraw(0)]
            } else {
                Seq::empty()
            }) + seq![Effect::Sync]);
        }
        wrap_effects(effects)
    }

    /// Applies an event.
    pub fn apply_event(&mut self, event: MacEvent) -> (effects: Vec<MacEffect>)
        requires
            countable(event),
        ensures
            evented(*old(self), event, *final(self), effects@),
            old(self).wf() ==> final(self).wf(),
    {
        match event {
            MacEvent::TrayClicked => {
                if self.session.popup.is_some() {
                    self.close_popup()
                } else {
                    let mut effects: Vec<MacEffect> = Vec::new();
                    effects.push(MacEffect::OpenPopup);
                    assert(effects@ =~= seq![MacEffect::OpenPopup]);
                    effects
                }
            },
            MacEvent::MouseMoved { kind, row } => {
                let effects: Vec<Effect> = self.session.on_cursor(kind.menu_level(), row);
                self.react(Reaction { effects, dismissed: false })
            },
            MacEvent::MouseDown { kind, row, id } => {
                let r: Reaction = self.session.on_click(kind.menu_level(), row, id);
                self.react(r)
            },
            MacEvent::MouseExited { outside } => {
                if outside && self.session.popup.is_some() {
                    self.on_exit()
                } else {
                    Vec::new()
                }
            },
            MacEvent::Key(key) => {
                let r: Reaction = self.session.on_key_aloud(key);
                self.react(r)
            },
            MacEvent::FocusChanged { kind, key } => {
                let level: usize = kind.menu_level();
                if key {
                    self.focused.insert(level);
                    self.dismiss_armed = false;
                } else {
                    self.focused.remove(&level);
                    if holds_nothing(&self.focused) {
                        self.dismiss_armed = true;
                    }
                }
                Vec::new()
            },
            MacEvent::OutsideClick { outside } => {
                if outside && self.session.popup.is_some() {
                    self.close_popup()
                } else {
                    Vec::new()
                }
            },
            MacEvent::Dismiss => {
                if self.session.popup.is_some() {
                    self.close_popup()
                } else {
                    Vec::new()
                }
            },
            MacEvent::A11yAction { kind, path, action } => {
                let level: usize = kind.menu_level();
                if self.session.menu_at_level(level).is_none() {
                    return Vec::new();
                }
                let whole: Vec<usize> = self.session.absolute_path(level, path.as_slice());
                let r: Reaction = self.session.apply_a11y(whole.as_slice(), action);
                self.react(r)
            },
        }
    }

    /// Once all pending events are applied: dismisses the menu where its focus is lost. Says
    /// whether it did.
    pub fn finalize_dismiss(&mut self) -> (r: (bool, Vec<MacEffect>))
        ensures
            r.0 == focus_is_lost(*old(self)),
            !final(self).dismiss_armed,
            r.0 ==> gone(old(self).session@, *final(self)) && r.1@ == closing(*old(self)),
            !r.0 ==> {
                &&& *final(self) == (MacSession { dismiss_armed: false, ..*old(self) })
                &&& r.1@.len() == 0
            },
            old(self).wf() ==> final(self).wf(),
    {
        let dismissed: bool = self.dismiss_armed && holds_nothing(&self.focused)
            && self.session.popup.is_some();
        let mut effects: Vec<MacEffect> = Vec::new();
        if dismissed {
            effects = self.close_popup();
        }
        self.dismiss_armed = false;
        (dismissed, effects)
    }
}

/// The status item.
#[derive(Debug)]
pub struct MacosAnchor {
    /// It is on the menu bar.
    pub installed: bool,
}

impl MacosAnchor {
    /// A status item that is not installed.
    pub fn new() -> (r: Self)
        ensures
            !r.installed,
    {
        MacosAnchor { installed: false }
    }

    /// Takes note that the status item is on the menu bar.
    pub fn install(&mut self)
        ensures
            final(self).installed,
    {
        self.installed = true;
    }

    /// Takes note that the status item goes away; says whether it has to be taken off the menu bar.
    pub fn remove(&mut self) -> (r: bool)
        ensures
            r == old(self).installed,
            !final(self).installed,
    {
        let r: bool = self.installed;
        self.installed = false;
        r
    }

    /// The rectangle of the status item, as AppKit reported it; an error where it is not installed
    /// or AppKit does not know.
    pub fn anchor_rect<T>(&self, reported: Option<T>) -> (r: Result<T>)
        ensures
            match r {
                Ok(place) => self.installed && reported == Some(place),
                Err(e) => (!self.installed || reported is None) && crate::error::platform_failure(
                    e,
                    "status item not installed"@,
                ),
            },
    {
        if self.installed {
            if let Some(place) = reported {
                return Ok(place);
            }
        }
        Err(Error::Platform("status item not installed".to_owned()))
    }
}

/// The macOS platform handle.
#[derive(Debug)]
pub struct MacPlatform {
    /// The handle was made on the main thread, where AppKit belongs.
    pub on_main_thread: bool,
    pub anchor: Option<MacosAnchor>,
}

impl MacPlatform {
    /// A handle with nothing installed.
    pub fn new(on_main_thread: bool) -> (r: Self)
        ensures
            r.on_main_thread == on_main_thread,
            r.anchor is None,
    {
        MacPlatform { on_main_thread, anchor: None }
    }

    /// Refuses what belongs on the main thread, where the handle was made elsewhere.
    pub fn require_main_thread(&self) -> (r: Result<()>)
        ensures
            r == if self.on_main_thread {
                Ok::<(), Error>(())
            } else {
                Err(Error::MainThread)
            },
    {
        if self.on_main_thread {
            Ok(())
        } else {
            Err(Error::MainThread)
        }
    }

    /// Takes note of a status item that was put on the menu bar. An earlier one has to be taken
    /// off; the result says whether there is one.
    pub fn install_tray(&mut self) -> (r: Result<bool>)
        ensures
            !old(self).on_main_thread ==> {
                &&& r == Err::<bool, Error>(Error::MainThread)
                &&& *final(self) == *old(self)
            },
            old(self).on_main_thread ==> {
                &&& r == Ok::<bool, Error>(old(self).anchor matches Some(a) && a.installed)
                &&& final(self).anchor matches Some(a) && a.installed
                &&& final(self).on_main_thread
            },
    {
        if !self.on_main_thread {
            return Err(Error::MainThread);
        }
        let replaced: bool = match &self.anchor {
            Some(a) => a.installed,
            None => false,
        };
        self.anchor = Some(MacosAnchor { installed: true });
        Ok(replaced)
    }

    /// The rectangle of the status item.
    pub fn tray_anchor_rect<T>(&self, reported: Option<T>) -> (r: Result<T>)
        ensures
            match r {
                Ok(place) => (self.anchor matches Some(a) && a.installed) && reported == Some(
                    place,
                ),
                Err(e) => match self.anchor {
                    None => crate::error::platform_failure(e, "tray not installed"@),
                    Some(a) => (!a.installed || reported is None)
                        && crate::error::platform_failure(e, "status item not installed"@),
                },
            },
    {
        match &self.anchor {
            None => Err(Error::Platform("tray not installed".to_owned())),
            Some(a) => a.anchor_rect(reported),
        }
    }

    /// Whether a popup can be anchored to the status item: always.
    pub fn supports_tray_anchor(&self) -> (r: bool)
        ensures
            r,
    {
        true
    }
}

/// A tray with its popup.
#[derive(Debug)]
pub struct MacApp {
    pub session: MacSession,
    pub tray: TrayState,
    pub anchor: MacosAnchor,
    /// The event loop is ours to stop, and not the host application's.
    pub owns_run_loop: bool,
}

/// The panels after a repaint of an open popup: without flyouts.
pub open spec fn repainted(s: crate::session::Stack) -> crate::session::Stack {
    crate::session::Stack {
        flyouts: if s.popup is Some {
            Seq::empty()
        } else {
            s.flyouts
        },
        ..s
    }
}

/// The outcome of a command.
pub open spec fn commanded(
    before: MacApp,
    command: TrayCommand,
    after: MacApp,
    effects: Seq<MacEffect>,
) -> bool {
    let s = before.session.session@;
    match command {
        TrayCommand::SetMenu(menu) => {
            &&& after.session.session@ == repainted(crate::session::Stack { menu, ..s })
            &&& same_focus(after.session, before.session)
            &&& effects == menu_effects(crate::session::repaint_effects(s))
            &&& after.tray == before.tray
            &&& after.anchor == before.anchor
        },
        TrayCommand::SetTheme | TrayCommand::SetOptions => {
            &&& after.session.session@ == repainted(s)
            &&& same_focus(after.session, before.session)
            &&& effects == menu_effects(crate::session::repaint_effects(s))
            &&& after.tray == before.tray
            &&& after.anchor == before.anchor
        },
        TrayCommand::SetIcon(icon) => {
            &&& after == (MacApp { tray: TrayState { icon, ..before.tray }, ..before })
            &&& effects == seq![MacEffect::UpdateStatus]
        },
        TrayCommand::SetTitle(title) => {
            &&& after == (MacApp { tray: TrayState { title, ..before.tray }, ..before })
            &&& effects == seq![MacEffect::UpdateStatus]
        },
        TrayCommand::SetTooltip(tooltip) => {
            &&& after == (MacApp { tray: TrayState { tooltip, ..before.tray }, ..before })
            &&& effects == seq![MacEffect::UpdateTooltip]
        },
        TrayCommand::SetVisible(visible) => {
            &&& after == before
            &&& effects == seq![MacEffect::UpdateVisible(visible)]
        },
        TrayCommand::Open => {
            &&& after == before
            &&& effects == if s.popup is None {
                seq![MacEffect::OpenPopup]
            } else {
                Seq::empty()
            }
        },
        TrayCommand::Close => {
            &&& gone(s, after.session)
            &&& effects == closing(before.session)
            &&& after.tray == before.tray
            &&& after.anchor == before.anchor
        },
        TrayCommand::Shutdown => {
            &&& gone(s, after.session)
            &&& after.tray == before.tray
            &&& !after.anchor.installed
            &&& effects == closing(before.session) + (if before.anchor.installed {
                seq![MacEffect::RemoveStatusItem]
            } else {
                Seq::empty()
            }) + (if before.owns_run_loop {
                seq![MacEffect::StopRunLoop]
            } else {
                Seq::empty()
            })
        },
        TrayCommand::QueryAnchorRect => {
            &&& after == before
            &&& effects == seq![MacEffect::AnswerAnchor]
        },
    }
}

/// A shutdown never stops an event loop of the host application, and takes the status item away at
/// most once.
pub proof fn law_shutdown_spares_the_host(
    before: MacApp,
    between: MacApp,
    after: MacApp,
    first: Seq<MacEffect>,
    second: Seq<MacEffect>,
)
    requires
        commanded(before, TrayCommand::Shutdown, between, first),
        commanded(between, TrayCommand::Shutdown, after, second),
    ensures
        !before.owns_run_loop ==> !first.contains(MacEffect::StopRunLoop),
        !second.contains(MacEffect::RemoveStatusItem),
{
}

impl MacApp {
    /// Applies a command.
    pub fn apply_command(&mut self, command: TrayCommand) -> (effects: Vec<MacEffect>)
        ensures
            commanded(*old(self), command, *final(self), effects@),
            final(self).owns_run_loop == old(self).owns_run_loop,
            old(self).session.wf() ==> final(self).session.wf(),
    {
        let mut effects: Vec<MacEffect> = Vec::new();
        match command {
            TrayCommand::SetMenu(menu) => {
                return wrap_effects(self.session.session.set_menu(menu));
            },
            TrayCommand::SetTheme | TrayCommand::SetOptions => {
                return wrap_effects(self.session.session.repaint_open_popup());
            },
            TrayCommand::SetIcon(icon) => {
                self.tray.icon = icon;
                effects.push(MacEffect::UpdateStatus);
                assert(effects@ =~= seq![MacEffect::UpdateStatus]);
            },
            TrayCommand::SetTitle(title) => {
                self.tray.title = title;
                effects.push(MacEffect::UpdateStatus);
                assert(effects@ =~= seq![MacEffect::UpdateStatus]);
            },
            TrayCommand::SetTooltip(tooltip) => {
                self.tray.tooltip = tooltip;
                effects.push(MacEffect::UpdateTooltip);
                assert(effects@ =~= seq![MacEffect::UpdateTooltip]);
            },
            TrayCommand::SetVisible(visible) => {
                effects.push(MacEffect::UpdateVisible(visible));
                assert(effects@ =~= seq![MacEffect::UpdateVisible(visible)]);
            },
            TrayCommand::Open => {
                if self.session.session.popup.is_none() {
                    effects.push(MacEffect::OpenPopup);
                    assert(effects@ =~= seq![MacEffect::OpenPopup]);
                }
            },
            TrayCommand::Close => {
                return self.session.close_popup();
            },
            TrayCommand::Shutdown => {
                effects = self.session.close_popup();
                if self.anchor.remove() {
                    effects.push(MacEffect::RemoveStatusItem);
                }
                if self.owns_run_loop {
                    effects.push(MacEffect::StopRunLoop);
                }
                assert(effects@ =~= closing(old(self).session) + (if old(self).anchor.installed {
                    seq![MacEffect::RemoveStatusItem]
                } else {
                    Seq::empty()
                }) + (if old(self).owns_run_loop {
                    seq![MacEffect::StopRunLoop]
                } else {
                    Seq::empty()
                }));
            },
            TrayCommand::QueryAnchorRect => {
                effects.push(MacEffect::AnswerAnchor);
                assert(effects@ =~= seq![MacEffect::AnswerAnchor]);
            },
        }
        effects
    }
}

/// The text of the status item and whether its picture stands to the left of the text.
pub open spec fn status_text(has_image: bool, title: Option<Seq<char>>) -> (Seq<char>, bool) {
    match title {
        Some(t) => if t.len() > 0 {
            (t, has_image)
        } else if has_image {
            (Seq::empty(), false)
        } else {
            ("\u{25cf}"@, false)
        },
        None => if has_image {
            (Seq::empty(), false)
        } else {
            ("\u{25cf}"@, false)
        },
    }
}

/// The text of the status item. Without a picture and a title a bullet keeps the item visible.
pub fn status_item_text(has_image: bool, title: Option<&str>) -> (r: (String, bool))
    ensures
        (r.0@, r.1) == status_text(
            has_image,
            match title {
                Some(t) => Some(t@),
                None => None,
            },
        ),
{
    if let Some(t) = title {
        if !t.is_empty() {
            return (t.to_owned(), has_image);
        }
    }
    if has_image {
        (String::new(), false)
    } else {
        ("\u{25cf}".to_owned(), false)
    }
}

/// The status item is never empty, so it can always be seen and clicked.
pub proof fn law_the_status_item_is_visible(has_image: bool, title: Option<Seq<char>>)
    ensures
        has_image || status_text(has_image, title).0.len() > 0,
{
    reveal_strlit("\u{25cf}");
}

/// A character in lower case, as far as the word `dark` is concerned: the Kelvin sign is a `k`.
pub open spec fn plain(c: char) -> char {
    if c == '\u{212a}' {
        'k'
    } else {
        crate::text::lower(c)
    }
}

/// `dark` stands in the text at this place, whatever the case.
pub open spec fn dark_at(name: Seq<char>, i: int) -> bool {
    &&& 0 <= i
    &&& i + 4 <= name.len()
    &&& plain(name[i]) == 'd'
    &&& plain(name[i + 1]) == 'a'
    &&& plain(name[i + 2]) == 'r'
    &&& plain(name[i + 3]) == 'k'
}

fn to_plain(c: char) -> (r: char)
    ensures
        r == plain(c),
{
    if c == '\u{212a}' {
        'k'
    } else {
        crate::text::ascii_lower(c)
    }
}

/// Whether an appearance is dark, by its name.
pub fn appearance_is_dark(name: &str) -> (r: bool)
    ensures
        r == exists|i: int| dark_at(name@, i),
{
    let chars: Vec<char> = characters(name);
    let n: usize = chars.len();
    let mut i: usize = 0;
    while n >= 4 && i <= n - 4
        invariant
            n == chars@.len(),
            chars@ == name@,
            i <= n,
            forall|j: int| 0 <= j < i ==> !#[trigger] dark_at(name@, j),
        decreases n - i,
    {
        if to_plain(chars[i]) == 'd' && to_plain(chars[i + 1]) == 'a' && to_plain(chars[i + 2])
            == 'r' && to_plain(chars[i + 3]) == 'k' {
            assert(dark_at(name@, i as int));
            return true;
        }
        i = i + 1;
    }
    false
}

/// What the panels of a popup are drawn over.
#[derive(Debug, Clone, Copy, PartialEq, Eq, Structural)]
pub enum Backdrop {
    /// The glass of the system's own menus, darkened by a tint where `tinted` says so.
    Glass { tinted: bool },
    /// The older translucent material, rounded by a mask.
    Vibrancy,
}

/// Chooses the backdrop: whatever the running system draws its own menus on. Glass is lighter than
/// a dark menu, so there it is tinted.
pub fn choose_backdrop(glass_available: bool, dark: bool) -> (r: Backdrop)
    ensures
        r == if glass_available {
            Backdrop::Glass { tinted: dark }
        } else {
            Backdrop::Vibrancy
        },
{
    if glass_available {
        Backdrop::Glass { tinted: dark }
    } else {
        Backdrop::Vibrancy
    }
}

/// Which face the menu font is loaded from.
#[derive(Debug, PartialEq, Eq)]
pub enum FontChoice {
    /// The regular file and the bold file, packed together.
    Packed,
    /// The regular file.
    Regular,
    /// The installed family of this name.
    Family(String),
    /// None can be found.
    Missing,
}

/// Whether a bold face is worth packing: it lies in a file of its own.
pub fn bold_is_distinct(bold: Option<&str>, regular: &str) -> (r: bool)
    ensures
        r == (bold matches Some(path) && path@ != regular@),
{
    match bold {
        Some(path) => !crate::text::same_text(path, regular),
        None => false,
    }
}

/// Chooses the face of the menu font: the file of the font, with its bold face where both could be
/// packed, or else its family, unless that has no name.
pub fn choose_font(has_file: bool, packed: bool, family: Option<String>) -> (r: FontChoice)
    ensures
        r == if has_file {
            if packed {
                FontChoice::Packed
            } else {
                FontChoice::Regular
            }
        } else {
            match family {
                Some(name) => if name@.len() > 0 {
                    FontChoice::Family(name)
                } else {
                    FontChoice::Missing
                },
                None => FontChoice::Missing,
            }
        },
{
    if has_file {
        if packed {
            return FontChoice::Packed;
        }
        return FontChoice::Regular;
    }
    match family {
        Some(name) => {
            if name.as_str().is_empty() {
                FontChoice::Missing
            } else {
                FontChoice::Family(name)
            }
        },
        None => FontChoice::Missing,
    }
}

/// Nothing of the menu is open, focused, armed or watched.
pub open spec fn all_closed(m: MacSession) -> bool {
    m.session@.popup is None && m.session@.flyouts.len() == 0 && m.focused@ == Set::<usize>::empty()
        && !m.dismiss_armed && !m.watchers
}

/// Effects on panels are passed on one for one, in order.
pub proof fn law_effects_are_passed_on(effects: Seq<Effect>, k: int)
    requires
        0 <= k < effects.len(),
    ensures
        menu_effects(effects).len() == effects.len(),
        menu_effects(effects)[k] == MacEffect::Menu(effects[k]),
{
}

/// Closing closes every open window, the deepest first, and then takes down the watchers exactly
/// where there are any.
pub proof fn law_closing_removes_the_watchers_last(m: MacSession)
    requires
        m.session@.wf(),
        m.session@.flyouts.len() <= usize::MAX,
    ensures
        ({
            let all = closing(m);
            let windows = m.session@.flyouts.len() as int + if m.session@.popup is Some {
                1int
            } else {
                0
            };
            &&& all.len() == windows + if m.watchers {
                1int
            } else {
                0
            }
            &&& m.watchers ==> all.last() == MacEffect::RemoveWatchers
            &&& forall|k: int|
                0 <= k < windows ==> all[k] == #[trigger] close_window(
                    m.session@.flyouts.len() - k,
                )
        }),
{
    crate::conduct::law_dismissing_goes_from_the_deepest_up(m.session@);
    let all = closing(m);
    let ends = crate::session::close_effects(m.session@);
    assert forall|k: int| 0 <= k < ends.len() implies all[k] == #[trigger] close_window(
        m.session@.flyouts.len() - k,
    ) by {
        assert(all[k] == menu_effects(ends)[k]);
        assert(ends[k] == Effect::Close((m.session@.flyouts.len() - k) as usize));
    }
}

/// The window of a level closes.
pub open spec fn close_window(level: int) -> MacEffect {
    MacEffect::Menu(Effect::Close(level as usize))
}

/// A click on the status item opens a menu that is closed and closes one that is open; a click
/// outside, another menu and Escape close it too; and with nothing open, or for a click inside,
/// nothing happens.
pub proof fn law_what_opens_and_closes_the_menu(
    before: MacSession,
    event: MacEvent,
    after: MacSession,
    effects: Seq<MacEffect>,
)
    requires
        before.wf(),
        evented(before, event, after, effects),
    ensures
        ({
            let open = before.session@.popup is Some;
            let kept = after == before && effects.len() == 0;
            let shut = all_closed(after) && after.session@.menu == before.session@.menu && effects
                == closing(before);
            &&& event is TrayClicked && open ==> shut
            &&& event is TrayClicked && !open ==> after == before && effects == seq![
                MacEffect::OpenPopup,
            ]
            &&& event is Dismiss ==> if open {
                shut
            } else {
                kept
            }
            &&& event matches MacEvent::OutsideClick { outside } ==> if open && outside {
                shut
            } else {
                kept
            }
            &&& event == MacEvent::Key(NavKey::Escape) ==> shut
            &&& event is MouseMoved ==> after.focused@ == before.focused@ && after.watchers
                == before.watchers && (open ==> after.session@.popup is Some)
        }),
{
    crate::conduct::law_what_keys_dismiss(before.session@, NavKey::Escape);
    if event == MacEvent::Key(NavKey::Escape) {
        assert(menu_effects(Seq::<Effect>::empty()) =~= Seq::<MacEffect>::empty());
        assert(effects =~= closing(before));
    }
}

/// A pointer that leaves every panel closes the flyouts and takes the highlight off the popup, which
/// stays; one that only passes into another panel changes nothing.
pub proof fn law_leaving_the_panels_keeps_the_popup(
    before: MacSession,
    outside: bool,
    after: MacSession,
    effects: Seq<MacEffect>,
)
    requires
        before.session@.popup is Some,
        before.session@.flyouts.len() <= usize::MAX,
        evented(before, MacEvent::MouseExited { outside }, after, effects),
    ensures
        !outside ==> after == before && effects.len() == 0,
        outside ==> {
            let s = before.session@;
            let t = after.session@;
            &&& t.menu == s.menu
            &&& t.flyouts.len() == 0
            &&& t.popup is Some && t.popup->0.hovered is None && t.popup->0.rows == s.popup->0.rows
            &&& after.focused@ == before.focused@ && after.watchers == before.watchers
            &&& effects.len() == s.flyouts.len() + 1 + if s.popup->0.hovered is Some {
                1int
            } else {
                0
            }
            &&& effects.last() == MacEffect::Menu(Effect::Sync)
            &&& s.popup->0.hovered is Some ==> effects[s.flyouts.len() as int] == MacEffect::Menu(
                Effect::Redraw(0),
            )
            &&& forall|k: int|
                0 <= k < s.flyouts.len() ==> effects[k] == #[trigger] close_window(
                    s.flyouts.len() - k,
                )
        },
{
    if outside {
        let s = before.session@;
        let all = crate::session::closes(s.flyouts.len() as int, 0) + (if s.top() is Some {
            seq![Effect::Redraw(0)]
        } else {
            Seq::empty()
        }) + seq![Effect::Sync];
        assert(effects == menu_effects(all));
        assert forall|k: int| 0 <= k < s.flyouts.len() implies effects[k]
            == #[trigger] close_window(s.flyouts.len() - k) by {
            assert(all[k] == Effect::Close((s.flyouts.len() - k) as usize));
        }
    }
}

/// A click on a row that dispatches hands its id over first and then closes everything; a click on
/// a submenu row leaves the popup and its focus alone.
pub proof fn law_a_click_dispatches_and_closes(
    before: MacSession,
    after: MacSession,
    effects: Seq<MacEffect>,
    kind: WindowKind,
    row: Option<usize>,
    id: MenuId,
)
    requires
        before.wf(),
        before.session@.popup is Some,
        crate::session::level_of(kind) <= before.session@.flyouts.len() <= usize::MAX,
        evented(before, MacEvent::MouseDown { kind, row, id: Some(id) }, after, effects),
    ensures
        ({
            let s = before.session@;
            let level = crate::session::level_of(kind);
            let here = crate::menu::descended(s.menu, s.parents().take(level))->0;
            let parent = row is Some && crate::conduct::opens_a_submenu(here, row->0 as int);
            &&& parent ==> after.session@.popup == s.popup && after.focused@ == before.focused@
                && after.watchers == before.watchers
            &&& !parent ==> all_closed(after)
            &&& !parent && id.0@.len() > 0 ==> effects == seq![
                MacEffect::Menu(Effect::Dispatch(id)),
            ] + closing(before)
            &&& !parent && id.0@.len() == 0 ==> effects == closing(before)
        }),
{
    let s = before.session@;
    let level = crate::session::level_of(kind);
    let lays = |path: Seq<usize>| None::<Seq<usize>>;
    crate::conduct::law_a_click_opens_or_dispatches(s, level as usize, row, Some(id), lays);
    let rest = if before.watchers {
        seq![MacEffect::RemoveWatchers]
    } else {
        Seq::empty()
    };
    if id.0@.len() > 0 {
        assert(menu_effects(seq![Effect::Dispatch(id)]) =~= seq![
            MacEffect::Menu(Effect::Dispatch(id)),
        ]);
        assert(seq![MacEffect::Menu(Effect::Dispatch(id))] + menu_effects(
            crate::session::close_effects(s),
        ) + rest =~= seq![MacEffect::Menu(Effect::Dispatch(id))] + closing(before));
    } else {
        assert(menu_effects(Seq::<Effect>::empty()) + menu_effects(
            crate::session::close_effects(s),
        ) + rest =~= closing(before));
    }
}

/// A command changes what it names, and nothing else of the tray: the icon, the title and the
/// tooltip are replaced and shown, the menu opens where it is closed and closes where it is told to,
/// and a shutdown closes everything, takes the status item off where it is on the bar, and stops
/// the event loop, last of all, where it is its own.
pub proof fn law_commands_do_what_they_name(
    before: MacApp,
    command: TrayCommand,
    after: MacApp,
    effects: Seq<MacEffect>,
)
    requires
        commanded(before, command, after, effects),
    ensures
        match command {
            TrayCommand::SetIcon(icon) => after.tray.icon == icon && after.tray.title
                == before.tray.title && after.tray.tooltip == before.tray.tooltip && after.session
                == before.session && effects == seq![MacEffect::UpdateStatus],
            TrayCommand::SetTitle(title) => after.tray.title == title && after.tray.icon
                == before.tray.icon && after.tray.tooltip == before.tray.tooltip && after.session
                == before.session && effects == seq![MacEffect::UpdateStatus],
            TrayCommand::SetTooltip(tooltip) => after.tray.tooltip == tooltip && after.tray.icon
                == before.tray.icon && after.tray.title == before.tray.title && after.session
                == before.session && effects == seq![MacEffect::UpdateTooltip],
            TrayCommand::SetVisible(visible) => after == before && effects == seq![
                MacEffect::UpdateVisible(visible),
            ],
            TrayCommand::SetMenu(menu) => after.session.session@.menu == menu && (
            before.session.session@.popup is Some ==> after.session.session@.flyouts.len() == 0)
                && after.session.session@.popup == before.session.session@.popup && after.tray
                == before.tray,
            TrayCommand::SetTheme | TrayCommand::SetOptions => after.session.session@.menu
                == before.session.session@.menu && after.session.session@.popup
                == before.session.session@.popup && (before.session.session@.popup is Some
                ==> after.session.session@.flyouts.len() == 0) && after.tray == before.tray,
            TrayCommand::Open => after == before && (effects.contains(MacEffect::OpenPopup)
                <==> before.session.session@.popup is None),
            TrayCommand::Close => all_closed(after.session) && after.session.session@.menu
                == before.session.session@.menu && after.tray == before.tray && after.anchor
                == before.anchor,
            TrayCommand::Shutdown => {
                &&& all_closed(after.session)
                &&& !after.anchor.installed
                &&& effects.contains(MacEffect::RemoveStatusItem) <==> before.anchor.installed
                &&& effects.contains(MacEffect::StopRunLoop) <==> before.owns_run_loop
                &&& before.owns_run_loop ==> effects.last() == MacEffect::StopRunLoop
            },
            TrayCommand::QueryAnchorRect => after == before && effects == seq![
                MacEffect::AnswerAnchor,
            ],
        },
{
    match command {
        TrayCommand::Open => {
            if before.session.session@.popup is None {
                assert(effects[0] == MacEffect::OpenPopup);
            }
        },
        TrayCommand::Shutdown => {
            let n = closing(before.session).len() as int;
            if before.anchor.installed {
                assert(effects[n] == MacEffect::RemoveStatusItem);
            }
            if before.owns_run_loop {
                assert(effects[effects.len() - 1] == MacEffect::StopRunLoop);
            }
        },
        _ => {},
    }
}

/// A new menu, theme or set of options is shown at once: an open popup has its flyouts closed, the
/// deepest first, is drawn again, and has its focus reported; without a popup there is nothing to
/// do, and what watches for clicks and holds the focus stays.
pub proof fn law_a_change_is_shown_at_once(
    before: MacApp,
    command: TrayCommand,
    after: MacApp,
    effects: Seq<MacEffect>,
)
    requires
        command is SetMenu || command is SetTheme || command is SetOptions,
        before.session.session@.flyouts.len() <= usize::MAX,
        commanded(before, command, after, effects),
    ensures
        ({
            let s = before.session.session@;
            let n = s.flyouts.len() as int;
            &&& s.popup is None ==> effects.len() == 0
            &&& s.popup is Some ==> {
                &&& effects.len() == n + 2
                &&& forall|k: int| 0 <= k < n ==> effects[k] == #[trigger] close_window(n - k)
                &&& effects[n] == MacEffect::Menu(Effect::Redraw(0))
                &&& effects[n + 1] == MacEffect::Menu(Effect::Sync)
            }
            &&& after.session.focused@ == before.session.focused@ && after.session.watchers
                == before.session.watchers && after.session.dismiss_armed
                == before.session.dismiss_armed
        }),
{
    let s = before.session.session@;
    let n = s.flyouts.len() as int;
    let asked = crate::session::repaint_effects(s);
    if s.popup is Some {
        assert forall|k: int| 0 <= k < n implies effects[k] == #[trigger] close_window(n - k) by {
            assert(asked[k] == Effect::Close((n - k) as usize));
        }
    }
}

/// The status item shows its title, with the picture to its left where there is one; without a
/// title it shows the picture alone.
pub proof fn law_the_status_item_shows_its_title(has_image: bool, title: Seq<char>)
    ensures
        title.len() > 0 ==> status_text(has_image, Some(title)) == (title, has_image),
        status_text(true, None) == (Seq::<char>::empty(), false),
        title.len() == 0 ==> status_text(has_image, Some(title)) == status_text(has_image, None),
        status_text(false, None).1 == false,
{
}

/// The word is found wherever it stands in a name and in whatever case.
pub proof fn law_dark_is_found_in_any_case(name: Seq<char>, i: int)
    requires
        0 <= i,
        i + 4 <= name.len(),
        name[i] == 'd' || name[i] == 'D',
        name[i + 1] == 'a' || name[i + 1] == 'A',
        name[i + 2] == 'r' || name[i + 2] == 'R',
        name[i + 3] == 'k' || name[i + 3] == 'K',
    ensures
        dark_at(name, i),
{
}

/// Only that word is found: four characters of which each is its letter in either case.
pub proof fn law_only_dark_is_found(name: Seq<char>, i: int)
    requires
        dark_at(name, i),
    ensures
        0 <= i && i + 4 <= name.len(),
        name[i] == 'd' || name[i] == 'D',
        name[i + 1] == 'a' || name[i + 1] == 'A',
        name[i + 2] == 'r' || name[i + 2] == 'R',
        name[i + 3] == 'k' || name[i + 3] == 'K' || name[i + 3] == '\u{212a}',
{
}

/// What keeps the menu open reaches the panels as it is: a key that does not dismiss, a move and a
/// click that does not dismiss leave the panels and ask for the effects that the session says, and
/// leave the focus and the watchers alone. An action of assistive technology is that on the row
/// whose path leads through the panel it names.
pub proof fn law_events_reach_the_panels(
    before: MacSession,
    event: MacEvent,
    after: MacSession,
    effects: Seq<MacEffect>,
)
    requires
        before.session@.wf(),
        evented(before, event, after, effects),
        event matches MacEvent::A11yAction { kind, path: _, action: _ } ==> crate::session::level_of(
            kind,
        ) <= before.session@.flyouts.len(),
    ensures
        ({
            let s = before.session@;
            let outcome = match event {
                MacEvent::Key(key) => Some(crate::session::keyed_aloud(s, key)),
                MacEvent::MouseMoved { kind, row } => Some(
                    (
                        crate::session::moved_within(s, crate::session::level_of(kind), row).0,
                        crate::session::moved_within(s, crate::session::level_of(kind), row).1,
                        false,
                    ),
                ),
                MacEvent::MouseDown { kind, row, id } => Some(
                    crate::session::clicked(s, crate::session::level_of(kind), row, id),
                ),
                MacEvent::A11yAction { kind, path, action } => Some(
                    crate::session::acted(
                        s,
                        s.parents().take(crate::session::level_of(kind)) + path@,
                        action,
                    ),
                ),
                _ => None,
            };
            outcome matches Some((panels, asked, dismissed)) ==> if dismissed {
                all_closed(after) && after.session@.menu == panels.menu && effects.take(
                    asked.len() as int,
                ) == asked.map_values(|e: Effect| MacEffect::Menu(e))
            } else {
                after.session@ == panels && after.focused@ == before.focused@ && after.dismiss_armed
                    == before.dismiss_armed && after.watchers == before.watchers && effects
                    == asked.map_values(|e: Effect| MacEffect::Menu(e))
            }
        }),
{
    let s = before.session@;
    match event {
        MacEvent::Key(key) => {
            let asked = crate::session::keyed_aloud(s, key).1;
            assert(effects.take(asked.len() as int) =~= menu_effects(asked));
        },
        MacEvent::MouseDown { kind, row, id } => {
            let asked = crate::session::clicked(s, crate::session::level_of(kind), row, id).1;
            assert(effects.take(asked.len() as int) =~= menu_effects(asked));
        },
        MacEvent::A11yAction { kind, path, action } => {
            let level = crate::session::level_of(kind);
            assert(s.parents().len() == s.flyouts.len());
            crate::conduct::law_a_row_is_the_same_from_every_level(s, level, path@);
            assert(crate::flyout::levels(s.parents(), level) =~= s.parents().take(level));
            let asked = crate::session::acted(s, s.parents().take(level) + path@, action).1;
            assert(effects.take(asked.len() as int) =~= menu_effects(asked));
        },
        _ => {},
    }
}

/// A panel that becomes the key window joins those with the focus and takes an armed dismissal back;
/// one that ceases to be it leaves them, and the dismissal is armed once none is left. The panels
/// themselves stay as they are until the focus proves lost.
pub proof fn law_the_focus_is_that_of_the_panels(
    before: MacSession,
    kind: WindowKind,
    key: bool,
    after: MacSession,
    effects: Seq<MacEffect>,
    level: usize,
)
    requires
        evented(before, MacEvent::FocusChanged { kind, key }, after, effects),
        crate::session::level_of(kind) <= usize::MAX,
    ensures
        after.session@ == before.session@ && after.watchers == before.watchers && effects.len() == 0,
        after.focused@.contains(level) <==> if level == crate::session::level_of(kind) {
            key
        } else {
            before.focused@.contains(level)
        },
        key ==> !after.dismiss_armed,
        !key && after.focused@.contains(level) && !before.dismiss_armed ==> !after.dismiss_armed,
        !key && after.focused@ == Set::<usize>::empty() ==> after.dismiss_armed,
        focus_is_lost(after) <==> after.dismiss_armed && after.focused@ == Set::<usize>::empty()
            && after.session@.popup is Some,
{
}

} // verus!
