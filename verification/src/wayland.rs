//! The Wayland popup: one surface over the whole output, into which every panel is composited.
use vstd::prelude::*;

use crate::error::{Error, Result};
use crate::keymap::evdev_to_navkey;
use crate::keynav::NavKey;
use crate::menu::{Menu, MenuId};
use crate::session::{Effect, PointerHit, Reaction, Session};
use crate::text::same_text;

verus! {

/// The evdev code of the left pointer button.
pub const BTN_LEFT: u32 = 0x110;

/// The evdev code of the right pointer button.
pub const BTN_RIGHT: u32 = 0x111;

/// Whether the compositor offers the layer-shell protocol, given the interfaces it lists.
pub fn layer_shell_listed(interfaces: &Vec<String>) -> (r: bool)
    ensures
        r == exists|k: int|
            0 <= k < interfaces@.len() && (#[trigger] interfaces@[k])@ == "zwlr_layer_shell_v1"@,
{
    let mut k: usize = 0;
    while k < interfaces.len()
        invariant
            k <= interfaces@.len(),
            forall|j: int|
                0 <= j < k ==> (#[trigger] interfaces@[j])@ != "zwlr_layer_shell_v1"@,
        decreases interfaces@.len() - k,
    {
        if same_text(interfaces[k].as_str(), "zwlr_layer_shell_v1") {
            return true;
        }
        k = k + 1;
    }
    false
}

/// A popup on a layer-shell compositor.
#[derive(Debug)]
pub struct PopupState {
    pub session: Session,
    /// The size of the output in pixels, zero until the compositor tells it.
    pub width: u32,
    pub height: u32,
    pub configured: bool,
    /// The shared memory for the surface is allocated.
    pub has_pool: bool,
    pub keyboard_focus: bool,
    /// The surface held the keyboard focus at some time.
    pub had_focus: bool,
    /// The row that was activated, dispatched once the popup is gone.
    pub activated: Option<MenuId>,
    /// The menu is dismissed; the event loop ends.
    pub done: bool,
    pub needs_redraw: bool,
}

/// What a new size of the surface asks for.
#[derive(Debug, Clone, Copy, PartialEq, Eq, Structural)]
pub struct Configured {
    /// Allocate shared memory of this many bytes.
    pub pool_len: Option<usize>,
    /// Render the popup, place it, and record it with [`PopupState::popup_opened`].
    pub open_popup: bool,
}

/// The size and the row length in bytes of the buffer to draw.
#[derive(Debug, Clone, Copy, PartialEq, Eq, Structural)]
pub struct Buffer {
    pub width: i32,
    pub height: i32,
    pub stride: i32,
}

/// A pointer move that was taken note of. Once its effects are performed, it is settled with
/// [`PopupState::settle`].
#[derive(Debug)]
pub struct Motion {
    pub effects: Vec<Effect>,
    /// The rows of the flyouts that were open before the move.
    pub before: Vec<usize>,
    /// The highlight of a panel changed.
    pub dirty: bool,
}

/// The bytes of an output's pixels, four for each, and never fewer than four.
pub open spec fn pool_bytes(width: u32, height: u32) -> int {
    if width * height * 4 < 4 {
        4
    } else {
        width * height * 4
    }
}

/// The row that a dismissal dispatches, if any.
pub open spec fn chosen(effects: Seq<Effect>) -> Option<MenuId> {
    if effects.len() > 0 {
        match effects.last() {
            Effect::Dispatch(id) => Some(id),
            _ => None,
        }
    } else {
        None
    }
}

/// The state after a reaction of the session that dismissed the menu: the chosen row is kept for
/// later, and nothing is left to do now.
pub open spec fn dismissed_by(before: PopupState, after: PopupState, effects: Seq<Effect>) -> bool {
    &&& after.done
    &&& after.activated == match chosen(effects) {
        Some(id) => Some(id),
        None => before.activated,
    }
    &&& after.needs_redraw == before.needs_redraw
}

/// The fields that the pointer and the keyboard never touch.
pub open spec fn same_surface(a: PopupState, b: PopupState) -> bool {
    &&& a.width == b.width
    &&& a.height == b.height
    &&& a.configured == b.configured
    &&& a.has_pool == b.has_pool
    &&& a.keyboard_focus == b.keyboard_focus
    &&& a.had_focus == b.had_focus
}

/// Where the pointer is, as far as a move is concerned.
pub open spec fn place(hit: Option<PointerHit>) -> Option<(usize, Option<usize>)> {
    match hit {
        Some(h) => Some((h.level, h.row)),
        None => None,
    }
}

/// A pointer move was taken note of: the session moved, and the flyouts it closed already ask for a
/// redraw.
pub open spec fn moved(
    before: PopupState,
    hit: Option<PointerHit>,
    after: PopupState,
    motion: Motion,
) -> bool {
    let s = before.session@;
    let (t, effects) = crate::session::moved_over(s, place(hit));
    &&& after.session@ == t
    &&& motion.effects@ == effects
    &&& motion.before@ == s.parents()
    &&& motion.dirty == (hit matches Some(h) && crate::session::hover_changes(
        s,
        h.level as int,
        h.row,
    ))
    &&& after.needs_redraw == (before.needs_redraw || t.flyouts.len() < s.flyouts.len())
    &&& after.done == before.done
    &&& after.activated == before.activated
    &&& same_surface(after, before)
}

/// A pointer move was settled: where the highlight or the open stack changed, the surface is drawn
/// again and the focus is reported.
pub open spec fn settled(
    before: PopupState,
    open_before: Seq<usize>,
    dirty: bool,
    after: PopupState,
    effects: Seq<Effect>,
) -> bool {
    let changed = before.session@.parents() != open_before;
    &&& after == (PopupState {
        needs_redraw: before.needs_redraw || dirty || changed,
        ..before
    })
    &&& effects == if dirty || changed {
        seq![Effect::Sync]
    } else {
        Seq::empty()
    }
}

/// A pointer move draws the surface again and reports the focus exactly where a highlight or the
/// open stack changed by it, whatever the host did with the openings that were asked for: one that
/// is refused changes nothing. `opened` is the state once the effects are performed, where each
/// flyout that was opened asked for a redraw of its own.
pub proof fn law_a_motion_redraws_exactly_on_a_change(
    first: PopupState,
    hit: Option<PointerHit>,
    noted: PopupState,
    motion: Motion,
    opened: PopupState,
    last: PopupState,
    effects: Seq<Effect>,
    lays: spec_fn(Seq<usize>) -> Option<Seq<usize>>,
)
    requires
        moved(first, hit, noted, motion),
        opened.session@ == crate::outcome::performed(noted.session@, motion.effects@, lays),
        opened.needs_redraw == (noted.needs_redraw || opened.session@.flyouts.len()
            > noted.session@.flyouts.len()),
        settled(opened, motion.before@, motion.dirty, last, effects),
    ensures
        ({
            let changed = last.session@.parents() != first.session@.parents();
            &&& last.needs_redraw == (first.needs_redraw || motion.dirty || changed)
            &&& effects == if motion.dirty || changed {
                seq![Effect::Sync]
            } else {
                Seq::empty()
            }
        }),
{
    crate::outcome::law_a_motion_changes_the_stack_by_closing_or_opening(
        first.session@,
        place(hit),
        lays,
    );
}

impl PopupState {
    /// No row without an id is ever kept for dispatch.
    pub open spec fn wf(self) -> bool {
        &&& self.session@.wf()
        &&& self.activated matches Some(id) ==> !id.inert()
        &&& self.configured ==> self.width > 0 && self.height > 0
    }

    /// A popup that waits for the size of its output.
    pub fn new(menu: Menu) -> (r: Self)
        ensures
            r.wf(),
            r.session@ == (crate::session::Stack { menu, popup: None, flyouts: Seq::empty() }),
            r.width == 0 && r.height == 0 && !r.configured && !r.has_pool,
            !r.keyboard_focus && !r.had_focus && r.activated is None && !r.done && !r.needs_redraw,
    {
        PopupState {
            session: Session::new(menu),
            width: 0,
            height: 0,
            configured: false,
            has_pool: false,
            keyboard_focus: false,
            had_focus: false,
            activated: None,
            done: false,
            needs_redraw: false,
        }
    }

    /// Records the popup, freshly rendered.
    pub fn popup_opened(&mut self, rows: Vec<usize>)
        ensures
            final(self).session@ == (crate::session::Stack {
                popup: Some(crate::session::PanelState { hovered: None, rows: rows@ }),
                ..old(self).session@
            }),
            final(self).needs_redraw,
            final(self).done == old(self).done,
            final(self).activated == old(self).activated,
            same_surface(*final(self), *old(self)),
            old(self).wf() ==> final(self).wf(),
    {
        self.session.popup_opened(rows);
        self.needs_redraw = true;
        assert(self.session@.parents() =~= old(self).session@.parents());
    }

    /// Records a flyout, freshly rendered.
    pub fn flyout_opened(&mut self, parent: usize, rows: Vec<usize>)
        ensures
            final(self).session@ == old(self).session@.opened(parent, rows@),
            final(self).needs_redraw,
            final(self).done == old(self).done,
            final(self).activated == old(self).activated,
            same_surface(*final(self), *old(self)),
            old(self).wf() && old(self).session@.may_open(parent) ==> final(self).wf(),
    {
        self.session.opened(parent, rows);
        self.needs_redraw = true;
    }

    /// The compositor gave the surface a size. A zero on either axis leaves the choice to the
    /// client, which has none here, so it is passed over. The first real size opens the popup.
    pub fn configure(&mut self, width: u32, height: u32) -> (r: Configured)
        requires
            width * height * 4 <= usize::MAX,
        ensures
            width == 0 || height == 0 ==> {
                &&& *final(self) == *old(self)
                &&& r == (Configured { pool_len: None, open_popup: false })
            },
            width > 0 && height > 0 ==> {
                &&& *final(self) == (PopupState { width, height, configured: true, ..*old(self) })
                &&& r.open_popup == !old(self).configured
                &&& match r.pool_len {
                    Some(n) => !old(self).has_pool && n == pool_bytes(width, height),
                    None => old(self).has_pool,
                }
            },
            old(self).wf() ==> final(self).wf(),
    {
        if width == 0 || height == 0 {
            return Configured { pool_len: None, open_popup: false };
        }
        self.width = width;
        self.height = height;
        let pool_len: Option<usize> = if self.has_pool {
            None
        } else {
            assert(width * height <= width * height * 4) by (nonlinear_arith)
                requires
                    0 <= width,
                    0 <= height,
            ;
            let pixels: usize = width as usize * height as usize;
            let n: usize = pixels * 4;
            Some(
                if n < 4 {
                    4
                } else {
                    n
                },
            )
        };
        let first: bool = !self.configured;
        self.configured = true;
        Configured { pool_len, open_popup: first }
    }

    /// The buffer to draw now: none before the first size; an error where the shared memory could
    /// not be had.
    pub fn buffer(&self) -> (r: Result<Option<Buffer>>)
        requires
            self.width * 4 <= i32::MAX,
            self.height <= i32::MAX,
        ensures
            ({
                let ready = self.configured && self.width > 0 && self.height > 0;
                match r {
                    Ok(None) => !ready,
                    Ok(Some(b)) => {
                        &&& ready && self.has_pool
                        &&& b.width == self.width
                        &&& b.height == self.height
                        &&& b.stride == self.width * 4
                    },
                    Err(e) => ready && !self.has_pool && crate::error::platform_failure(
                        e,
                        "wl_shm pool missing"@,
                    ),
                }
            }),
    {
        if !self.configured {
            return Ok(None);
        }
        if self.width == 0 || self.height == 0 {
            return Ok(None);
        }
        if !self.has_pool {
            return Err(Error::Platform("wl_shm pool missing".to_owned()));
        }
        Ok(
            Some(
                Buffer {
                    width: self.width as i32,
                    height: self.height as i32,
                    stride: self.width as i32 * 4,
                },
            ),
        )
    }

    /// Whether to draw now; the wish is taken back.
    pub fn take_redraw(&mut self) -> (r: bool)
        ensures
            r == old(self).needs_redraw,
            *final(self) == (PopupState { needs_redraw: false, ..*old(self) }),
    {
        let r: bool = self.needs_redraw;
        self.needs_redraw = false;
        r
    }

    /// The pointer entered the surface or moved on it. Whether the open stack changes by it is known
    /// only once the effects are performed; then the move is settled.
    pub fn on_motion(&mut self, hit: Option<PointerHit>) -> (r: Motion)
        ensures
            moved(*old(self), hit, *final(self), r),
            old(self).wf() ==> final(self).wf(),
    {
        let before: Vec<usize> = self.session.flyout_stack();
        let at: Option<(usize, Option<usize>)> = match &hit {
            Some(h) => Some((h.level, h.row)),
            None => None,
        };
        let dirty: bool = match at {
            Some((level, row)) => match self.session.panel(level) {
                Some(p) => p.hovered != row,
                None => false,
            },
            None => false,
        };
        let effects: Vec<Effect> = self.session.on_motion(at);
        if self.session.flyouts.len() < before.len() {
            self.needs_redraw = true;
        }
        Motion { effects, before, dirty }
    }

    /// Whether the open flyouts are others than those of the rows `before`.
    pub fn stack_changed(&self, before: &[usize]) -> (r: bool)
        ensures
            r == (self.session@.parents() != before@),
    {
        let open: Vec<usize> = self.session.flyout_stack();
        let n: usize = open.len();
        if n != before.len() {
            return true;
        }
        let mut k: usize = 0;
        while k < n
            invariant
                n == open@.len(),
                n == before@.len(),
                k <= n,
                open@ == self.session@.parents(),
                forall|j: int| 0 <= j < k ==> open@[j] == before@[j],
            decreases n - k,
        {
            if open[k] != before[k] {
                return true;
            }
            k = k + 1;
        }
        assert(open@ =~= before@);
        false
    }

    /// Settles a pointer move once its effects are performed. `before` and `dirty` are those of the
    /// move.
    pub fn settle(&mut self, before: &[usize], dirty: bool) -> (effects: Vec<Effect>)
        ensures
            settled(*old(self), before@, dirty, *final(self), effects@),
            old(self).wf() ==> final(self).wf(),
    {
        let mut effects: Vec<Effect> = Vec::new();
        if self.stack_changed(before) || dirty {
            self.needs_redraw = true;
            effects.push(Effect::Sync);
        }
        assert(effects@.len() > 0 ==> effects@ =~= seq![Effect::Sync]);
        effects
    }

    /// Takes note of a reaction that dismisses the menu.
    fn dismiss(&mut self, effects: Vec<Effect>)
        ensures
            dismissed_by(*old(self), *final(self), effects@),
            final(self).session == old(self).session,
            same_surface(*final(self), *old(self)),
    {
        let mut effects: Vec<Effect> = effects;
        match effects.pop() {
            Some(Effect::Dispatch(id)) => {
                self.activated = Some(id);
            },
            _ => {},
        }
        self.done = true;
    }

    /// A pointer button went down on the surface. Only the left and the right button click; a
    /// click outside every panel dismisses without dispatching.
    pub fn on_press(&mut self, button: u32, hit: Option<PointerHit>) -> (effects: Vec<Effect>)
        ensures
            button != BTN_LEFT && button != BTN_RIGHT ==> *final(self) == *old(self) && effects@.len()
                == 0,
            button == BTN_LEFT || button == BTN_RIGHT ==> match hit {
                None => {
                    &&& *final(self) == (PopupState { done: true, ..*old(self) })
                    &&& effects@.len() == 0
                },
                Some(h) => {
                    let (s, e, gone) = crate::session::clicked(
                        old(self).session@,
                        h.level as int,
                        h.row,
                        h.id,
                    );
                    &&& final(self).session@ == s
                    &&& same_surface(*final(self), *old(self))
                    &&& if gone {
                        dismissed_by(*old(self), *final(self), e) && effects@.len() == 0
                    } else {
                        &&& effects@ == e
                        &&& final(self).done == old(self).done
                        &&& final(self).activated == old(self).activated
                        &&& final(self).needs_redraw == (old(self).needs_redraw
                            || s.flyouts.len() < old(self).session@.flyouts.len())
                    }
                },
            },
            old(self).wf() ==> final(self).wf(),
    {
        if button != BTN_LEFT && button != BTN_RIGHT {
            return Vec::new();
        }
        match hit {
            None => {
                self.done = true;
                Vec::new()
            },
            Some(h) => {
                let before: usize = self.session.flyouts.len();
                let r: Reaction = self.session.on_click(h.level, h.row, h.id);
                if r.dismissed {
                    self.dismiss(r.effects);
                    Vec::new()
                } else {
                    if self.session.flyouts.len() < before {
                        self.needs_redraw = true;
                    }
                    r.effects
                }
            },
        }
    }

    /// A key went down.
    pub fn on_key(&mut self, code: u32) -> (effects: Vec<Effect>)
        ensures
            same_surface(*final(self), *old(self)),
            match crate::keymap::evdev_key(code) {
                None => *final(self) == *old(self) && effects@.len() == 0,
                Some(key) => {
                    let (s, e, gone) = crate::session::keyed_aloud(old(self).session@, key);
                    &&& final(self).session@ == s
                    &&& if gone {
                        dismissed_by(*old(self), *final(self), e) && effects@.len() == 0
                    } else {
                        &&& effects@ == e
                        &&& final(self).done == old(self).done
                        &&& final(self).activated == old(self).activated
                        &&& final(self).needs_redraw == (old(self).needs_redraw || e.len() > 0)
                    }
                },
            },
            old(self).wf() ==> final(self).wf(),
    {
        let key: NavKey = match evdev_to_navkey(code) {
            Some(key) => key,
            None => {
                return Vec::new();
            },
        };
        let r: Reaction = self.session.on_key_aloud(key);
        if r.dismissed {
            self.dismiss(r.effects);
            Vec::new()
        } else {
            if r.effects.len() > 0 {
                self.needs_redraw = true;
            }
            r.effects
        }
    }

    /// The surface got the keyboard focus.
    pub fn on_enter(&mut self)
        ensures
            *final(self) == (PopupState {
                keyboard_focus: true,
                had_focus: true,
                ..*old(self)
            }),
            old(self).wf() ==> final(self).wf(),
    {
        self.keyboard_focus = true;
        self.had_focus = true;
    }

    /// The surface lost the keyboard focus. That dismisses the menu, unless the surface never had
    /// it, as while it is being shown.
    pub fn on_leave(&mut self)
        ensures
            *final(self) == (PopupState {
                keyboard_focus: false,
                done: old(self).done || old(self).had_focus,
                ..*old(self)
            }),
            old(self).wf() ==> final(self).wf(),
    {
        self.keyboard_focus = false;
        if self.had_focus {
            self.done = true;
        }
    }

    /// The compositor closed the surface.
    pub fn on_closed(&mut self)
        ensures
            *final(self) == (PopupState { done: true, ..*old(self) }),
            old(self).wf() ==> final(self).wf(),
    {
        self.done = true;
    }

    /// The row to dispatch, once the popup is gone.
    pub fn finish(self) -> (r: Option<MenuId>)
        ensures
            r == match self.activated {
                Some(id) => if id.inert() {
                    None
                } else {
                    Some(id)
                },
                None => None,
            },
            self.wf() ==> r == self.activated,
    {
        match self.activated {
            Some(id) => {
                if id.is_none() {
                    None
                } else {
                    Some(id)
                }
            },
            None => None,
        }
    }
}

/// The shared memory holds the whole buffer of an output, row by row, and is never empty.
pub proof fn law_the_pool_holds_the_buffer(width: u32, height: u32)
    ensures
        pool_bytes(width, height) >= width * 4 * height,
        pool_bytes(width, height) >= 4,
        width > 0 && height > 0 ==> pool_bytes(width, height) == width * 4 * height,
{
    assert(width * height * 4 == width * 4 * height) by (nonlinear_arith);
    assert(width * height >= 1 || width == 0 || height == 0) by (nonlinear_arith)
        requires
            width >= 0,
            height >= 0,
    ;
}

/// A click that dismisses the menu keeps its row for dispatch, where the row has an id, and a popup
/// that was not dismissed by a row dispatches nothing.
pub proof fn law_a_dismissing_click_keeps_its_row(
    before: PopupState,
    after: PopupState,
    level: usize,
    row: Option<usize>,
    id: MenuId,
)
    requires
        before.wf(),
        before.session@.popup is Some,
        level <= before.session@.flyouts.len(),
        crate::session::clicked(before.session@, level as int, row, Some(id)).2,
        dismissed_by(
            before,
            after,
            crate::session::clicked(before.session@, level as int, row, Some(id)).1,
        ),
    ensures
        after.done,
        after.activated == if id.0@.len() > 0 {
            Some(id)
        } else {
            before.activated
        },
        after.needs_redraw == before.needs_redraw,
{
}

/// A key that dismisses the menu keeps the selected row for dispatch where it is Enter or Space on
/// a row that dispatches, and nothing where it is Escape.
pub proof fn law_a_dismissing_key_keeps_its_row(before: PopupState, after: PopupState, key: NavKey)
    requires
        before.wf(),
        crate::session::keyed_aloud(before.session@, key).2,
        dismissed_by(before, after, crate::session::keyed_aloud(before.session@, key).1),
    ensures
        after.done,
        key is Escape ==> after.activated == before.activated,
        !(key is Escape) ==> {
            let s = before.session@;
            let level = crate::menu::descended(s.menu, s.parents())->0;
            let row = crate::conduct::selected_row(s);
            &&& key is Activate
            &&& row is Some
            &&& crate::conduct::dispatches_row(level, row->0 as int)
            &&& level.items@[row->0 as int] matches crate::menu::Item::Row(r) && after.activated
                == Some(r.id)
        },
{
    crate::conduct::law_what_keys_dismiss(before.session@, key);
}

/// What is kept for dispatch is the row that the last effect dispatches, and nothing where there is
/// none.
pub proof fn law_what_is_chosen(effects: Seq<Effect>, id: MenuId)
    ensures
        chosen(effects.push(Effect::Dispatch(id))) == Some(id),
        chosen(Seq::empty()) is None,
        chosen(effects) is Some <==> effects.len() > 0 && effects.last() is Dispatch,
{
}

/// A move is over what was hit and outside every panel where nothing was; it alters no part of the
/// surface.
pub proof fn law_a_motion_is_that_of_its_hit(
    before: PopupState,
    hit: Option<PointerHit>,
    after: PopupState,
    motion: Motion,
)
    requires
        moved(before, hit, after, motion),
    ensures
        ({
            let (noted, effects) = match hit {
                Some(h) => crate::session::moved_over(before.session@, Some((h.level, h.row))),
                None => crate::session::moved_over(before.session@, None),
            };
            &&& after.session@ == noted
            &&& motion.effects@ == effects
        }),
        motion.before@ == before.session@.parents(),
        motion.dirty ==> hit is Some && before.session@.panel(hit->0.level as int) is Some
            && before.session@.panel(hit->0.level as int)->0.hovered != hit->0.row,
        hit is Some && before.session@.panel(hit->0.level as int) is Some
            && before.session@.panel(hit->0.level as int)->0.hovered != hit->0.row ==> motion.dirty,
        after.done == before.done && after.activated == before.activated,
        after.width == before.width && after.height == before.height && after.configured
            == before.configured && after.has_pool == before.has_pool && after.keyboard_focus
            == before.keyboard_focus && after.had_focus == before.had_focus,
{
}

} // verus!
