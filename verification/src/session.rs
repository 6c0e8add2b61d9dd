//! The open menu: its popup, the stack of flyouts above it, and how the pointer, the keyboard and
//! assistive technology drive them.
//!
//! A session holds what decisions need: which panels are open, from which rows, which row each
//! panel highlights, and which rows it laid out. Handlers update it at once and return, in order,
//! the effects for the windowing system: windows to close, flyouts to open, panels to repaint,
//! rows to dispatch.
use vstd::prelude::*;

use crate::error::{Error, Result};
use crate::flyout::{common_flyout_prefix, next_flyout, HoverTarget};
use crate::keynav::{handle_key, FlyoutFocus, MenuFocus, NavAction, NavKey};
use crate::menu::{descend, is_submenu_at_path, menu_id_at_path, Menu, MenuId};

verus! {

/// A popup or flyout window.
#[derive(Debug)]
pub struct Panel {
    /// The highlighted row.
    pub hovered: Option<usize>,
    /// The rows that have a place in the panel's layout.
    pub rows: Vec<usize>,
}

/// An open flyout.
#[derive(Debug)]
pub struct Flyout {
    /// The row, in the menu of the level above, that it opened from.
    pub parent: usize,
    pub panel: Panel,
}

/// An open menu. Level `0` is the popup, level `k` the flyout at place `k - 1` of the stack.
#[derive(Debug)]
pub struct Session {
    pub menu: Menu,
    pub popup: Option<Panel>,
    /// The open flyouts, shallowest first.
    pub flyouts: Vec<Flyout>,
}

/// Which window an event came from.
#[derive(Debug, Clone, Copy, PartialEq, Eq, Structural)]
pub enum WindowKind {
    Popup,
    /// The flyout at this depth; the one that opened from the popup is at depth `0`.
    Flyout(usize),
}

/// The menu level that a window shows.
pub open spec fn level_of(kind: WindowKind) -> int {
    match kind {
        WindowKind::Popup => 0,
        WindowKind::Flyout(depth) => depth + 1,
    }
}

impl WindowKind {
    /// The menu level that the window shows.
    pub fn menu_level(self) -> (r: usize)
        requires
            level_of(self) <= usize::MAX,
        ensures
            r == level_of(self),
    {
        match self {
            WindowKind::Popup => 0,
            WindowKind::Flyout(depth) => depth + 1,
        }
    }

    /// The window of a menu level.
    pub fn at_level(level: usize) -> (r: Self)
        ensures
            level_of(r) == level,
    {
        if level == 0 {
            WindowKind::Popup
        } else {
            WindowKind::Flyout(level - 1)
        }
    }
}

/// Something the windowing system has to do. Effects are performed in order.
#[derive(Debug, PartialEq, Eq)]
pub enum Effect {
    /// Close the window of this level.
    Close(usize),
    /// Open a flyout from this row of the deepest open level, where [`Session::plan_open`] allows
    /// it, and record it with [`Session::opened`].
    Open(usize),
    /// Highlight a row with [`Session::select`].
    Select { level: usize, row: Option<usize> },
    /// Repaint the panel of this level.
    Redraw(usize),
    /// Repaint every panel.
    RedrawAll,
    /// Report the focus to assistive technology.
    Sync,
    /// Hand this id to the click handler.
    Dispatch(MenuId),
}

/// What a handler asks for: effects, and whether the menu is to be dismissed after them.
#[derive(Debug)]
pub struct Reaction {
    pub effects: Vec<Effect>,
    pub dismissed: bool,
}

/// The deepest open level whose panel holds the pointer, given for each level whether it does.
pub open spec fn deepest(inside: Seq<bool>) -> Option<usize>
    decreases inside.len(),
{
    if inside.len() == 0 {
        None
    } else if inside.last() {
        Some((inside.len() - 1) as usize)
    } else {
        deepest(inside.drop_last())
    }
}

/// Finds the deepest level whose panel holds the pointer. Deeper panels lie above.
pub fn deepest_panel(inside: &[bool]) -> (r: Option<usize>)
    ensures
        r == deepest(inside@),
        match r {
            Some(level) => level < inside@.len() && inside@[level as int] && forall|k: int|
                level < k < inside@.len() ==> !#[trigger] inside@[k],
            None => forall|k: int| 0 <= k < inside@.len() ==> !#[trigger] inside@[k],
        },
{
    let mut n: usize = inside.len();
    assert(inside@.take(n as int) =~= inside@);
    while n > 0
        invariant
            n <= inside@.len(),
            deepest(inside@) == deepest(inside@.take(n as int)),
            forall|k: int| n <= k < inside@.len() ==> !#[trigger] inside@[k],
        decreases n,
    {
        assert(inside@.take(n as int).drop_last() =~= inside@.take(n - 1));
        n = n - 1;
        if inside[n] {
            return Some(n);
        }
    }
    None
}

/// Where the pointer is: the deepest panel under it, and the row and id it hits there.
#[derive(Debug)]
pub struct PointerHit {
    pub level: usize,
    pub row: Option<usize>,
    pub id: Option<MenuId>,
}

/// The value of a [`Panel`].
#[verifier::ext_equal]
pub struct PanelState {
    pub hovered: Option<usize>,
    pub rows: Seq<usize>,
}

/// The value of a [`Flyout`].
#[verifier::ext_equal]
pub struct FlyoutState {
    pub parent: usize,
    pub panel: PanelState,
}

/// The value of a [`Session`].
#[verifier::ext_equal]
pub struct Stack {
    pub menu: Menu,
    pub popup: Option<PanelState>,
    pub flyouts: Seq<FlyoutState>,
}

impl View for Panel {
    type V = PanelState;

    open spec fn view(&self) -> PanelState {
        PanelState { hovered: self.hovered, rows: self.rows@ }
    }
}

impl View for Flyout {
    type V = FlyoutState;

    open spec fn view(&self) -> FlyoutState {
        FlyoutState { parent: self.parent, panel: self.panel@ }
    }
}

impl View for Session {
    type V = Stack;

    open spec fn view(&self) -> Stack {
        Stack {
            menu: self.menu,
            popup: match self.popup {
                Some(p) => Some(p@),
                None => None,
            },
            flyouts: self.flyouts@.map_values(|f: Flyout| f@),
        }
    }
}

impl Stack {
    /// The rows the flyouts opened from.
    pub open spec fn parents(self) -> Seq<usize> {
        self.flyouts.map_values(|f: FlyoutState| f.parent)
    }

    /// No flyout without a popup, and every flyout opened from a submenu row.
    pub open spec fn wf(self) -> bool {
        &&& self.popup is None ==> self.flyouts.len() == 0
        &&& crate::menu::descended(self.menu, self.parents()) is Some
    }

    /// The menu that a level shows.
    pub open spec fn level_menu(self, level: int) -> Option<Menu> {
        crate::menu::descended(self.menu, crate::flyout::levels(self.parents(), level))
    }

    /// The panel of a level.
    pub open spec fn panel(self, level: int) -> Option<PanelState> {
        if level == 0 {
            self.popup
        } else if 0 < level <= self.flyouts.len() {
            Some(self.flyouts[level - 1].panel)
        } else {
            None
        }
    }

    /// Row `i` of this level opens a submenu.
    pub open spec fn is_parent(self, level: int, i: int) -> bool {
        self.level_menu(level) matches Some(m) && crate::menu::submenu_at(m, i) is Some
    }

    /// The stack with another row highlighted, where the level is open.
    pub open spec fn selected(self, level: int, row: Option<usize>) -> Stack {
        if level == 0 {
            match self.popup {
                Some(p) => Stack { popup: Some(PanelState { hovered: row, ..p }), ..self },
                None => self,
            }
        } else if 0 < level <= self.flyouts.len() {
            let f = self.flyouts[level - 1];
            Stack {
                flyouts: self.flyouts.update(
                    level - 1,
                    FlyoutState { panel: PanelState { hovered: row, ..f.panel }, ..f },
                ),
                ..self
            }
        } else {
            self
        }
    }

    /// The stack with at most `n` flyouts.
    pub open spec fn truncated(self, n: int) -> Stack {
        if n < self.flyouts.len() {
            Stack { flyouts: self.flyouts.take(n), ..self }
        } else {
            self
        }
    }

    /// The stack with one more flyout.
    pub open spec fn opened(self, parent: usize, rows: Seq<usize>) -> Stack {
        Stack {
            flyouts: self.flyouts.push(
                FlyoutState { parent, panel: PanelState { hovered: None, rows } },
            ),
            ..self
        }
    }

    /// A flyout can open from this row of the deepest open level: it is a submenu row, and its
    /// panel is open and laid it out.
    pub open spec fn may_open(self, parent: usize) -> bool {
        let depth = self.flyouts.len() as int;
        &&& self.is_parent(depth, parent as int)
        &&& self.panel(depth) matches Some(p) && p.rows.contains(parent)
    }

    /// The stack with another layout of a level, where the level is open.
    pub open spec fn repainted(self, level: int, rows: Seq<usize>) -> Stack {
        if level == 0 {
            match self.popup {
                Some(p) => Stack { popup: Some(PanelState { rows, ..p }), ..self },
                None => self,
            }
        } else if 0 < level <= self.flyouts.len() {
            let f = self.flyouts[level - 1];
            Stack {
                flyouts: self.flyouts.update(
                    level - 1,
                    FlyoutState { panel: PanelState { rows, ..f.panel }, ..f },
                ),
                ..self
            }
        } else {
            self
        }
    }

    /// The highlighted row of the popup.
    pub open spec fn top(self) -> Option<usize> {
        match self.popup {
            Some(p) => p.hovered,
            None => None,
        }
    }

    /// The highlighted row of each flyout.
    pub open spec fn flyout_focus(self) -> Seq<FlyoutFocus> {
        self.flyouts.map_values(
            |f: FlyoutState| FlyoutFocus { parent: f.parent, child: f.panel.hovered },
        )
    }
}

/// The windows that close when a stack of `len` flyouts shrinks to `n`, deepest first.
pub open spec fn closes(len: int, n: int) -> Seq<Effect> {
    if n < len {
        Seq::new((len - n) as nat, |k: int| Effect::Close((len - k) as usize))
    } else {
        Seq::empty()
    }
}

/// One opening for each row, in order.
pub open spec fn opens(rows: Seq<usize>) -> Seq<Effect> {
    rows.map_values(|p: usize| Effect::Open(p))
}

/// The effects that turn the open stack into `target`: close what is not shared, open the rest.
pub open spec fn reconcile_effects(s: Stack, target: Seq<usize>) -> Seq<Effect> {
    let n = crate::flyout::common(s.parents(), target) as int;
    closes(s.flyouts.len() as int, n) + opens(target.skip(n))
}

/// The stack while `target` is being reached: the levels that are shared.
pub open spec fn reconciled(s: Stack, target: Seq<usize>) -> Stack {
    s.truncated(crate::flyout::common(s.parents(), target) as int)
}

/// The effects of dismissing everything: the flyouts deepest first, then the popup.
pub open spec fn close_effects(s: Stack) -> Seq<Effect> {
    closes(s.flyouts.len() as int, 0) + if s.popup is Some {
        seq![Effect::Close(0)]
    } else {
        Seq::empty()
    }
}

/// Nothing is open.
pub open spec fn closed(s: Stack) -> Stack {
    Stack { popup: None, flyouts: Seq::empty(), ..s }
}

/// What the pointer is over, where it is in panel `level` and hits `row`.
pub open spec fn pointed(s: Stack, level: int, row: Option<usize>) -> HoverTarget {
    if s.panel(level) is None {
        HoverTarget::Outside
    } else {
        match row {
            Some(i) => if s.is_parent(level, i as int) {
                HoverTarget::ParentRow { panel: level as usize, index: i }
            } else {
                HoverTarget::OtherRow { panel: level as usize }
            },
            None => if level > 0 {
                HoverTarget::Flyout
            } else {
                HoverTarget::OtherRow { panel: level as usize }
            },
        }
    }
}

/// The highlight of an open panel changes.
pub open spec fn hover_changes(s: Stack, level: int, row: Option<usize>) -> bool {
    s.panel(level) matches Some(p) && p.hovered != row
}

/// A pointer move: the panel under it highlights the row it hits, and the flyouts follow.
pub open spec fn moved_over(s: Stack, at: Option<(usize, Option<usize>)>) -> (Stack, Seq<Effect>) {
    match at {
        None => (
            reconciled(s, Seq::empty()),
            reconcile_effects(s, Seq::empty()),
        ),
        Some((level, row)) => {
            let next = crate::flyout::hovered_stack(s.parents(), pointed(s, level as int, row));
            if hover_changes(s, level as int, row) {
                let s1 = s.selected(level as int, row);
                (reconciled(s1, next), reconcile_effects(s1, next).push(Effect::Redraw(level)))
            } else {
                (reconciled(s, next), reconcile_effects(s, next))
            }
        },
    }
}

/// A pointer move inside the window of one panel. Between its rows, every flyout closes.
pub open spec fn moved_within(s: Stack, level: int, row: Option<usize>) -> (Stack, Seq<Effect>) {
    if s.panel(level) is None {
        (s, Seq::empty())
    } else {
        let target = if row is Some {
            pointed(s, level, row)
        } else {
            HoverTarget::Outside
        };
        let next = crate::flyout::hovered_stack(s.parents(), target);
        if hover_changes(s, level, row) {
            let s1 = s.selected(level, row);
            (
                reconciled(s1, next),
                (seq![Effect::Redraw(level as usize)] + reconcile_effects(s1, next)).push(
                    Effect::Sync,
                ),
            )
        } else {
            (reconciled(s, next), reconcile_effects(s, next).push(Effect::Sync))
        }
    }
}

/// The effects of repainting an open popup without its flyouts.
pub open spec fn repaint_effects(s: Stack) -> Seq<Effect> {
    if s.popup is Some {
        closes(s.flyouts.len() as int, 0).push(Effect::Redraw(0)).push(Effect::Sync)
    } else {
        Seq::empty()
    }
}

/// Closing flyouts keeps the rest of the stack sound.
pub proof fn lemma_truncated_wf(s: Stack, n: int)
    requires
        s.wf(),
        0 <= n,
    ensures
        s.truncated(n).wf(),
{
    if n < s.flyouts.len() {
        assert(s.truncated(n).parents() =~= s.parents().take(n));
        crate::menu::lemma_prefix_resolves(s.menu, s.parents(), n);
    }
}

/// Highlights play no part in the soundness of a stack.
pub proof fn lemma_same_parents_wf(s: Stack, t: Stack)
    requires
        s.menu == t.menu,
        s.popup is None <==> t.popup is None,
        s.parents() == t.parents(),
    ensures
        s.wf() == t.wf(),
{
    assert(s.parents().len() == s.flyouts.len());
    assert(t.parents().len() == t.flyouts.len());
}

/// Dispatching `id`: nothing for an id that takes no part in dispatch.
pub open spec fn dispatches(id: MenuId) -> Seq<Effect> {
    if id.inert() {
        Seq::empty()
    } else {
        seq![Effect::Dispatch(id)]
    }
}

/// A click in panel `level` that hits `row`, whose id is `id`: a submenu row opens its flyout in
/// place of the deeper ones, a row with an id is dispatched and dismisses the menu.
pub open spec fn clicked(s: Stack, level: int, row: Option<usize>, id: Option<MenuId>) -> (
    Stack,
    Seq<Effect>,
    bool,
) {
    if s.level_menu(level) is None || s.panel(level) is None {
        (s, Seq::empty(), false)
    } else if row is Some && s.is_parent(level, row->0 as int) {
        (
            s.truncated(level),
            closes(s.flyouts.len() as int, level).push(Effect::Open(row->0)),
            false,
        )
    } else {
        match id {
            Some(id) => (s, dispatches(id), true),
            None => (s, Seq::empty(), false),
        }
    }
}

/// The stack with the highlights of the flyouts taken from a focus, as far as both reach.
pub open spec fn refocused(s: Stack, flyout: Seq<FlyoutFocus>) -> Stack {
    Stack {
        flyouts: Seq::new(
            s.flyouts.len(),
            |k: int|
                if k < flyout.len() {
                    FlyoutState {
                        panel: PanelState { hovered: flyout[k].child, ..s.flyouts[k].panel },
                        ..s.flyouts[k]
                    }
                } else {
                    s.flyouts[k]
                },
        ),
        ..s
    }
}

/// The outcome of a key, on a surface without assistive technology.
pub open spec fn keyed(s: Stack, key: NavKey) -> (Stack, Seq<Effect>, bool) {
    let (action, top, flyout) = crate::keynav::navigated(s.menu, s.top(), s.flyout_focus(), key);
    let s1 = s.selected(0, top);
    let depth = s.flyouts.len() as int;
    let repaint = seq![Effect::RedrawAll];
    match action {
        NavAction::Ignore => (s1, Seq::empty(), false),
        NavAction::Redraw => (refocused(s1, flyout), repaint, false),
        NavAction::OpenFlyout(i) => (
            refocused(s1, flyout),
            seq![Effect::Open(i)] + (if flyout.len() > depth {
                seq![
                    Effect::Select { level: (depth + 1) as usize, row: flyout[depth].child },
                ]
            } else {
                Seq::empty()
            }) + repaint,
            false,
        ),
        NavAction::CloseFlyout => (
            refocused(s1.truncated(if depth > 0 { depth - 1 } else { 0 }), flyout),
            closes(depth, if depth > 0 { depth - 1 } else { 0 }) + repaint,
            false,
        ),
        NavAction::Activate(id) => (s1, dispatches(id), true),
        NavAction::CloseAll => (s1, Seq::empty(), true),
    }
}

/// The outcome of a key, on a surface that reports the focus: where the key asks for anything and
/// the menu stays, the new focus is reported after it.
pub open spec fn keyed_aloud(s: Stack, key: NavKey) -> (Stack, Seq<Effect>, bool) {
    let (t, effects, dismissed) = keyed(s, key);
    if dismissed || effects.len() == 0 {
        (t, effects, dismissed)
    } else {
        (t, effects.push(Effect::Sync), dismissed)
    }
}

impl Session {
    /// A session with nothing open.
    pub fn new(menu: Menu) -> (r: Self)
        ensures
            r@ == (Stack { menu, popup: None, flyouts: Seq::empty() }),
            r@.wf(),
    {
        let r = Session { menu, popup: None, flyouts: Vec::new() };
        assert(r@.flyouts =~= Seq::empty());
        assert(r@.parents() =~= Seq::empty());
        r
    }

    /// The rows the flyouts opened from, shallowest first.
    pub fn flyout_stack(&self) -> (r: Vec<usize>)
        ensures
            r@ == self@.parents(),
    {
        let mut r: Vec<usize> = Vec::new();
        let mut k: usize = 0;
        while k < self.flyouts.len()
            invariant
                k <= self.flyouts@.len(),
                r@ == self@.parents().take(k as int),
            decreases self.flyouts@.len() - k,
        {
            r.push(self.flyouts[k].parent);
            assert(r@ =~= self@.parents().take(k + 1));
            k = k + 1;
        }
        assert(r@ =~= self@.parents());
        r
    }

    /// The highlighted rows of all levels.
    pub fn current_focus(&self) -> (r: MenuFocus)
        ensures
            r.top == self@.top(),
            r.flyout@ == self@.flyout_focus(),
    {
        let top: Option<usize> = match &self.popup {
            Some(p) => p.hovered,
            None => None,
        };
        let mut flyout: Vec<FlyoutFocus> = Vec::new();
        let mut k: usize = 0;
        while k < self.flyouts.len()
            invariant
                k <= self.flyouts@.len(),
                flyout@ == self@.flyout_focus().take(k as int),
            decreases self.flyouts@.len() - k,
        {
            let f: &Flyout = &self.flyouts[k];
            flyout.push(FlyoutFocus { parent: f.parent, child: f.panel.hovered });
            assert(flyout@ =~= self@.flyout_focus().take(k + 1));
            k = k + 1;
        }
        assert(flyout@ =~= self@.flyout_focus());
        MenuFocus { top, flyout }
    }

    /// The menu that a level shows, borrowed from the session's menu.
    pub fn menu_at_level(&self, level: usize) -> (r: Option<&Menu>)
        ensures
            r is Some <==> self@.level_menu(level as int) is Some,
            r matches Some(m) ==> Some(*m) == self@.level_menu(level as int),
    {
        let mut path: Vec<usize> = self.flyout_stack();
        path.truncate(level);
        assert(path@ =~= crate::flyout::levels(self@.parents(), level as int));
        descend(&self.menu, path.as_slice())
    }

    /// The menu to paint in the panel of a level; `None` where the level is not open or its menu is
    /// gone.
    pub fn menu_to_paint(&self, level: usize) -> (r: Option<&Menu>)
        ensures
            r is Some <==> self@.panel(level as int) is Some && self@.level_menu(level as int)
                is Some,
            r matches Some(m) ==> Some(*m) == self@.level_menu(level as int),
    {
        if self.panel(level).is_some() {
            self.menu_at_level(level)
        } else {
            None
        }
    }

    /// The panel of a level.
    pub fn panel(&self, level: usize) -> (r: Option<&Panel>)
        ensures
            r is Some <==> self@.panel(level as int) is Some,
            r matches Some(p) ==> Some(p@) == self@.panel(level as int),
    {
        if level == 0 {
            match &self.popup {
                Some(p) => Some(p),
                None => None,
            }
        } else if level <= self.flyouts.len() {
            Some(&self.flyouts[level - 1].panel)
        } else {
            None
        }
    }

    /// Highlights a row of a level, where it is open.
    pub fn select(&mut self, level: usize, row: Option<usize>)
        ensures
            final(self)@ == old(self)@.selected(level as int, row),
    {
        if level == 0 {
            if let Some(p) = &mut self.popup {
                p.hovered = row;
            }
            assert(self@.flyouts =~= old(self)@.flyouts);
        } else if level <= self.flyouts.len() {
            self.flyouts[level - 1].panel.hovered = row;
            assert(self@.flyouts =~= old(self)@.selected(level as int, row).flyouts);
        }
    }

    /// Records the rows that the panel of a level laid out when it was painted.
    pub fn laid_out(&mut self, level: usize, rows: Vec<usize>)
        ensures
            final(self)@ == old(self)@.repainted(level as int, rows@),
    {
        if level == 0 {
            if let Some(p) = &mut self.popup {
                p.rows = rows;
            }
            assert(self@.flyouts =~= old(self)@.flyouts);
        } else if level <= self.flyouts.len() {
            self.flyouts[level - 1].panel.rows = rows;
            assert(self@.flyouts =~= old(self)@.repainted(level as int, rows@).flyouts);
        }
    }

    /// Records the popup, freshly painted.
    pub fn popup_opened(&mut self, rows: Vec<usize>)
        ensures
            final(self)@ == (Stack {
                popup: Some(PanelState { hovered: None, rows: rows@ }),
                ..old(self)@
            }),
    {
        self.popup = Some(Panel { hovered: None, rows });
    }

    /// The submenu to paint in a new flyout from this row of the deepest open level; `None` where
    /// no flyout can open from it.
    pub fn plan_open(&self, parent: usize) -> (r: Option<&Menu>)
        ensures
            r is Some <==> self@.may_open(parent),
            r matches Some(m) ==> Some(*m) == crate::menu::descended(
                self.menu,
                self@.parents().push(parent),
            ),
    {
        let depth: usize = self.flyouts.len();
        proof {
            let path = self@.parents().push(parent);
            assert(path.drop_last() =~= self@.parents());
            assert(crate::flyout::levels(self@.parents(), depth as int) =~= self@.parents());
        }
        match self.menu_at_level(depth) {
            Some(menu) => match menu.submenu_ref(parent) {
                Some(child) => match self.panel(depth) {
                    Some(p) => {
                        if lists(&p.rows, parent) {
                            Some(child)
                        } else {
                            None
                        }
                    },
                    None => None,
                },
                None => None,
            },
            None => None,
        }
    }

    /// Records a new flyout.
    pub fn opened(&mut self, parent: usize, rows: Vec<usize>)
        ensures
            final(self)@ == old(self)@.opened(parent, rows@),
            old(self)@.wf() && old(self)@.may_open(parent) ==> final(self)@.wf(),
    {
        self.flyouts.push(Flyout { parent, panel: Panel { hovered: None, rows } });
        proof {
            let before = old(self)@;
            assert(self@.flyouts =~= before.opened(parent, rows@).flyouts);
            assert(self@.parents() =~= before.parents().push(parent));
            assert(self@.parents().drop_last() =~= before.parents());
            assert(crate::flyout::levels(before.parents(), before.flyouts.len() as int)
                =~= before.parents());
        }
    }

    /// Closes the flyouts deeper than `n`, the deepest first.
    pub fn truncate_flyouts(&mut self, n: usize) -> (effects: Vec<Effect>)
        ensures
            final(self)@ == old(self)@.truncated(n as int),
            effects@ == closes(old(self)@.flyouts.len() as int, n as int),
            old(self)@.wf() ==> final(self)@.wf(),
    {
        let mut effects: Vec<Effect> = Vec::new();
        let ghost before = self@;
        let ghost len = self.flyouts@.len() as int;
        assert(self@.flyouts.take(len) =~= self@.flyouts);
        while self.flyouts.len() > n
            invariant
                self@.menu == before.menu,
                self@.popup == before.popup,
                len == before.flyouts.len(),
                self.flyouts@.len() <= len,
                len > n ==> n <= self.flyouts@.len(),
                len <= n ==> self.flyouts@.len() == len,
                self@.flyouts == before.flyouts.take(self.flyouts@.len() as int),
                effects@.len() == len - self.flyouts@.len(),
                forall|k: int|
                    0 <= k < effects@.len() ==> #[trigger] effects@[k] == Effect::Close(
                        (len - k) as usize,
                    ),
            decreases self.flyouts@.len(),
        {
            let depth: usize = self.flyouts.len();
            let ghost held = self.flyouts@;
            effects.push(Effect::Close(depth));
            let _ = self.flyouts.pop();
            proof {
                assert(self.flyouts@ == held.drop_last());
                assert(self@.flyouts =~= before.flyouts.take(depth - 1));
            }
        }
        proof {
            assert(effects@ =~= closes(len, n as int));
            assert(before.truncated(n as int).flyouts =~= self@.flyouts);
            if before.wf() {
                lemma_truncated_wf(before, n as int);
            }
        }
        effects
    }

    /// Turns the open stack towards `target`: closes the levels that are not shared and asks for
    /// the others.
    pub fn apply_flyout_stack(&mut self, target: &[usize]) -> (effects: Vec<Effect>)
        ensures
            final(self)@ == reconciled(old(self)@, target@),
            effects@ == reconcile_effects(old(self)@, target@),
            old(self)@.wf() ==> final(self)@.wf(),
    {
        let open: Vec<usize> = self.flyout_stack();
        let n: usize = common_flyout_prefix(open.as_slice(), target);
        let mut effects: Vec<Effect> = self.truncate_flyouts(n);
        let ghost closing = effects@;
        let mut k: usize = n;
        assert(opens(target@.skip(n as int)).take(0) =~= Seq::empty());
        while k < target.len()
            invariant
                n <= k <= target@.len(),
                effects@ == closing + opens(target@.skip(n as int)).take(k - n),
            decreases target@.len() - k,
        {
            effects.push(Effect::Open(target[k]));
            proof {
                let rest = opens(target@.skip(n as int));
                assert(rest[k - n] == Effect::Open(target@[k as int]));
                assert(rest.take(k + 1 - n) =~= rest.take(k - n).push(rest[k - n]));
                assert(effects@ =~= closing + rest.take(k + 1 - n));
            }
            k = k + 1;
        }
        assert(opens(target@.skip(n as int)).take(k - n) =~= opens(target@.skip(n as int)));
        effects
    }

    /// Closes everything, the deepest flyout first.
    pub fn close_popup(&mut self) -> (effects: Vec<Effect>)
        ensures
            final(self)@ == closed(old(self)@),
            effects@ == close_effects(old(self)@),
            final(self)@.wf(),
    {
        let mut effects: Vec<Effect> = self.truncate_flyouts(0);
        assert(self@.flyouts =~= Seq::empty());
        match self.popup.take() {
            Some(_) => {
                effects.push(Effect::Close(0));
            },
            None => {},
        }
        assert(effects@ =~= close_effects(old(self)@));
        assert(self@.flyouts =~= Seq::empty());
        assert(self@.parents() =~= Seq::empty());
        effects
    }

    /// Whether the popup opened, for a session that exists to show it.
    pub fn require_open(&self) -> (r: Result<()>)
        ensures
            r is Ok <==> self@.popup is Some,
            r matches Err(e) ==> crate::error::platform_failure(
                e,
                "failed to open the popup window"@,
            ),
    {
        if self.popup.is_some() {
            Ok(())
        } else {
            Err(Error::Platform("failed to open the popup window".to_owned()))
        }
    }

    /// Replaces the menu. An open popup stays, without flyouts, and is repainted.
    pub fn set_menu(&mut self, menu: Menu) -> (effects: Vec<Effect>)
        ensures
            final(self)@ == (Stack {
                menu,
                flyouts: if old(self)@.popup is Some {
                    Seq::empty()
                } else {
                    old(self)@.flyouts
                },
                ..old(self)@
            }),
            effects@ == repaint_effects(old(self)@),
            old(self)@.wf() ==> final(self)@.wf(),
    {
        self.menu = menu;
        assert(self@.flyouts =~= old(self)@.flyouts);
        let effects: Vec<Effect> = self.repaint_open_popup();
        proof {
            if old(self)@.popup is None && old(self)@.wf() {
                assert(self@.parents() =~= Seq::empty());
            }
        }
        effects
    }

    /// Repaints an open popup after a change of theme, options or menu, closing its flyouts.
    pub fn repaint_open_popup(&mut self) -> (effects: Vec<Effect>)
        ensures
            final(self)@ == (Stack {
                flyouts: if old(self)@.popup is Some {
                    Seq::empty()
                } else {
                    old(self)@.flyouts
                },
                ..old(self)@
            }),
            effects@ == repaint_effects(old(self)@),
            old(self)@.popup is Some || old(self)@.wf() ==> final(self)@.wf(),
    {
        if self.popup.is_some() {
            let mut effects: Vec<Effect> = self.truncate_flyouts(0);
            assert(self@.flyouts =~= Seq::empty());
            assert(self@.parents() =~= Seq::empty());
            effects.push(Effect::Redraw(0));
            effects.push(Effect::Sync);
            assert(effects@ =~= repaint_effects(old(self)@));
            effects
        } else {
            Vec::new()
        }
    }

    /// Whether row `i` of a level opens a submenu.
    pub fn is_parent_row(&self, level: usize, i: usize) -> (r: bool)
        ensures
            r == self@.is_parent(level as int, i as int),
    {
        match self.menu_at_level(level) {
            Some(menu) => menu.is_submenu(i),
            None => false,
        }
    }

    /// What the pointer is over, where it is in panel `level` and hits `row`.
    pub fn hover_target(&self, level: usize, row: Option<usize>) -> (r: HoverTarget)
        ensures
            r == pointed(self@, level as int, row),
    {
        if self.panel(level).is_none() {
            return HoverTarget::Outside;
        }
        match row {
            Some(i) => {
                if self.is_parent_row(level, i) {
                    HoverTarget::ParentRow { panel: level, index: i }
                } else {
                    HoverTarget::OtherRow { panel: level }
                }
            },
            None => {
                if level > 0 {
                    HoverTarget::Flyout
                } else {
                    HoverTarget::OtherRow { panel: level }
                }
            },
        }
    }

    /// Highlights what the pointer hits in a panel; says whether the highlight changed.
    fn hover(&mut self, level: usize, row: Option<usize>) -> (changed: bool)
        ensures
            changed == hover_changes(old(self)@, level as int, row),
            final(self)@ == if changed {
                old(self)@.selected(level as int, row)
            } else {
                old(self)@
            },
            final(self)@.parents() == old(self)@.parents(),
    {
        let changed: bool = match self.panel(level) {
            Some(p) => p.hovered != row,
            None => false,
        };
        if changed {
            self.select(level, row);
        }
        assert(self@.parents() =~= old(self)@.parents());
        changed
    }

    /// A pointer move over a surface that holds every panel. `at` is the deepest panel under the
    /// pointer and the row it hits there.
    pub fn on_motion(&mut self, at: Option<(usize, Option<usize>)>) -> (effects: Vec<Effect>)
        ensures
            (final(self)@, effects@) == moved_over(old(self)@, at),
            old(self)@.wf() ==> final(self)@.wf(),
    {
        let target: HoverTarget = match at {
            Some((level, row)) => self.hover_target(level, row),
            None => HoverTarget::Outside,
        };
        let mut dirty: Option<usize> = None;
        if let Some((level, row)) = at {
            if self.hover(level, row) {
                dirty = Some(level);
            }
        }
        let open: Vec<usize> = self.flyout_stack();
        let next: Vec<usize> = next_flyout(open.as_slice(), target);
        proof {
            lemma_same_parents_wf(old(self)@, self@);
        }
        let mut effects: Vec<Effect> = self.apply_flyout_stack(next.as_slice());
        if let Some(level) = dirty {
            effects.push(Effect::Redraw(level));
        }
        assert(effects@ =~= moved_over(old(self)@, at).1);
        effects
    }

    /// A pointer move inside the window of one panel, hitting `row`.
    pub fn on_cursor(&mut self, level: usize, row: Option<usize>) -> (effects: Vec<Effect>)
        ensures
            (final(self)@, effects@) == moved_within(old(self)@, level as int, row),
            old(self)@.wf() ==> final(self)@.wf(),
    {
        if self.panel(level).is_none() {
            return Vec::new();
        }
        let target: HoverTarget = if row.is_some() {
            self.hover_target(level, row)
        } else {
            HoverTarget::Outside
        };
        let mut effects: Vec<Effect> = Vec::new();
        if self.hover(level, row) {
            effects.push(Effect::Redraw(level));
        }
        let open: Vec<usize> = self.flyout_stack();
        let next: Vec<usize> = next_flyout(open.as_slice(), target);
        proof {
            lemma_same_parents_wf(old(self)@, self@);
        }
        let mut more: Vec<Effect> = self.apply_flyout_stack(next.as_slice());
        effects.append(&mut more);
        effects.push(Effect::Sync);
        assert(effects@ =~= moved_within(old(self)@, level as int, row).1);
        effects
    }

    /// A click in the panel of a level that hits `row`, whose id is `id`.
    pub fn on_click(&mut self, level: usize, row: Option<usize>, id: Option<MenuId>) -> (r: Reaction)
        ensures
            (final(self)@, r.effects@, r.dismissed) == clicked(old(self)@, level as int, row, id),
            old(self)@.wf() ==> final(self)@.wf(),
    {
        if self.menu_at_level(level).is_none() || self.panel(level).is_none() {
            return Reaction { effects: Vec::new(), dismissed: false };
        }
        if let Some(i) = row {
            if self.is_parent_row(level, i) {
                let mut effects: Vec<Effect> = self.truncate_flyouts(level);
                effects.push(Effect::Open(i));
                return Reaction { effects, dismissed: false };
            }
        }
        match id {
            Some(id) => Reaction { effects: dispatch_effects(id), dismissed: true },
            None => Reaction { effects: Vec::new(), dismissed: false },
        }
    }

    /// Takes the highlights of the flyouts from a focus.
    fn refocus(&mut self, flyout: &Vec<FlyoutFocus>)
        ensures
            final(self)@ == refocused(old(self)@, flyout@),
    {
        let ghost before = self@;
        let mut k: usize = 0;
        while k < self.flyouts.len() && k < flyout.len()
            invariant
                self@.menu == before.menu,
                self@.popup == before.popup,
                self.flyouts@.len() == before.flyouts.len(),
                k <= self.flyouts@.len(),
                k <= flyout@.len(),
                forall|j: int|
                    0 <= j < k ==> #[trigger] self@.flyouts[j] == refocused(
                        before,
                        flyout@,
                    ).flyouts[j],
                forall|j: int|
                    k <= j < self.flyouts@.len() ==> #[trigger] self@.flyouts[j]
                        == before.flyouts[j],
            decreases self.flyouts@.len() - k,
        {
            let ghost held = self@.flyouts;
            assert(held[k as int] == before.flyouts[k as int]);
            self.flyouts[k].panel.hovered = flyout[k].child;
            assert forall|j: int| 0 <= j < self.flyouts@.len() && j != k implies #[trigger] self@.flyouts[j]
                == held[j] by {}
            k = k + 1;
        }
        assert(self@.flyouts =~= refocused(before, flyout@).flyouts);
    }

    /// A navigation key, on a surface without assistive technology.
    pub fn on_key(&mut self, key: NavKey) -> (r: Reaction)
        ensures
            (final(self)@, r.effects@, r.dismissed) == keyed(old(self)@, key),
            old(self)@.wf() ==> final(self)@.wf(),
    {
        let mut focus: MenuFocus = self.current_focus();
        let action: NavAction = handle_key(&self.menu, &mut focus, key);
        self.select(0, focus.top);
        let ghost s1 = self@;
        proof {
            assert(s1.parents() =~= old(self)@.parents());
            lemma_same_parents_wf(old(self)@, s1);
        }
        let depth: usize = self.flyouts.len();
        let mut effects: Vec<Effect> = Vec::new();
        match action {
            NavAction::Ignore => {
                return Reaction { effects, dismissed: false };
            },
            NavAction::Redraw => {},
            NavAction::OpenFlyout(i) => {
                effects.push(Effect::Open(i));
                if focus.flyout.len() > depth {
                    effects.push(
                        Effect::Select { level: depth + 1, row: focus.flyout[depth].child },
                    );
                }
            },
            NavAction::CloseFlyout => {
                effects = self.truncate_flyouts(
                    if depth > 0 {
                        depth - 1
                    } else {
                        0
                    },
                );
            },
            NavAction::Activate(id) => {
                return Reaction { effects: dispatch_effects(id), dismissed: true };
            },
            NavAction::CloseAll => {
                return Reaction { effects, dismissed: true };
            },
        }
        let ghost s2 = self@;
        self.refocus(&focus.flyout);
        proof {
            assert(self@.parents() =~= s2.parents());
            lemma_same_parents_wf(s2, self@);
        }
        effects.push(Effect::RedrawAll);
        assert(effects@ =~= keyed(old(self)@, key).1);
        Reaction { effects, dismissed: false }
    }

    /// A navigation key, on a surface that reports the focus to assistive technology.
    pub fn on_key_aloud(&mut self, key: NavKey) -> (r: Reaction)
        ensures
            (final(self)@, r.effects@, r.dismissed) == keyed_aloud(old(self)@, key),
            old(self)@.wf() ==> final(self)@.wf(),
    {
        let mut r: Reaction = self.on_key(key);
        if !r.dismissed && r.effects.len() > 0 {
            r.effects.push(Effect::Sync);
        }
        r
    }
}

/// What assistive technology asks of a row.
#[derive(Debug, Clone, Copy, PartialEq, Eq, Structural)]
pub enum AxAction {
    /// Move the focus to it.
    Focus,
    /// Activate it.
    Click,
    /// Anything else, which a menu does not offer.
    Other,
}

/// The outcome of an action on the row at `path`. Focusing a row opens the flyouts on the way to
/// it; clicking a submenu row opens its flyout; clicking another row dispatches it and dismisses
/// the menu.
pub open spec fn acted(s: Stack, path: Seq<usize>, action: AxAction) -> (Stack, Seq<Effect>, bool) {
    if path.len() == 0 {
        (s, Seq::empty(), false)
    } else {
        match action {
            AxAction::Focus => (
                reconciled(s, path.drop_last()),
                reconcile_effects(s, path.drop_last()) + seq![
                    Effect::Select { level: (path.len() - 1) as usize, row: Some(path.last()) },
                    Effect::Select { level: 0, row: Some(path[0]) },
                    Effect::RedrawAll,
                    Effect::Sync,
                ],
                false,
            ),
            AxAction::Click => if crate::menu::descended(s.menu, path) is Some {
                (
                    reconciled(s, path),
                    reconcile_effects(s, path) + seq![
                        Effect::Select { level: 0, row: Some(path[0]) },
                        Effect::Sync,
                    ],
                    false,
                )
            } else {
                (
                    s,
                    match crate::menu::id_at(s.menu, path) {
                        Some(id) => dispatches(id),
                        None => Seq::empty(),
                    },
                    true,
                )
            },
            AxAction::Other => (s, Seq::empty(), false),
        }
    }
}

/// The focus that the panel of a level reports: its own highlighted row, with the deeper levels
/// as its expanded flyouts.
pub open spec fn reported(s: Stack, level: int) -> (Option<usize>, Seq<FlyoutFocus>) {
    if level == 0 {
        (s.top(), s.flyout_focus())
    } else {
        (s.flyouts[level - 1].panel.hovered, s.flyout_focus().skip(level))
    }
}

impl Session {
    /// The path of a row from the top of the menu, given its path in the menu of a level.
    pub fn absolute_path(&self, level: usize, row: &[usize]) -> (r: Vec<usize>)
        ensures
            r@ == crate::flyout::levels(self@.parents(), level as int) + row@,
    {
        let mut path: Vec<usize> = self.flyout_stack();
        path.truncate(level);
        let ghost above = path@;
        assert(above =~= crate::flyout::levels(self@.parents(), level as int));
        let mut k: usize = 0;
        assert(row@.take(0) =~= Seq::empty());
        while k < row.len()
            invariant
                k <= row@.len(),
                path@ == above + row@.take(k as int),
            decreases row@.len() - k,
        {
            path.push(row[k]);
            assert(path@ =~= above + row@.take(k + 1));
            k = k + 1;
        }
        assert(row@.take(k as int) =~= row@);
        path
    }

    /// An action of assistive technology on the row at `path`.
    pub fn apply_a11y(&mut self, path: &[usize], action: AxAction) -> (r: Reaction)
        ensures
            (final(self)@, r.effects@, r.dismissed) == acted(old(self)@, path@, action),
            old(self)@.wf() ==> final(self)@.wf(),
    {
        let n: usize = path.len();
        if n == 0 {
            return Reaction { effects: Vec::new(), dismissed: false };
        }
        match action {
            AxAction::Focus => {
                let above: &[usize] = vstd::slice::slice_subrange(path, 0, n - 1);
                assert(above@ =~= path@.drop_last());
                let mut effects: Vec<Effect> = self.apply_flyout_stack(above);
                effects.push(Effect::Select { level: n - 1, row: Some(path[n - 1]) });
                effects.push(Effect::Select { level: 0, row: Some(path[0]) });
                effects.push(Effect::RedrawAll);
                effects.push(Effect::Sync);
                assert(effects@ =~= acted(old(self)@, path@, action).1);
                Reaction { effects, dismissed: false }
            },
            AxAction::Click => {
                if is_submenu_at_path(&self.menu, path) {
                    let mut effects: Vec<Effect> = self.apply_flyout_stack(path);
                    effects.push(Effect::Select { level: 0, row: Some(path[0]) });
                    effects.push(Effect::Sync);
                    assert(effects@ =~= acted(old(self)@, path@, action).1);
                    return Reaction { effects, dismissed: false };
                }
                let effects: Vec<Effect> = match menu_id_at_path(&self.menu, path) {
                    Some(id) => dispatch_effects(id),
                    None => Vec::new(),
                };
                Reaction { effects, dismissed: true }
            },
            AxAction::Other => Reaction { effects: Vec::new(), dismissed: false },
        }
    }

    /// The focus that the panel of a level reports; `None` where the level is not open or its menu
    /// is gone.
    pub fn focus_at(&self, level: usize) -> (r: Option<MenuFocus>)
        ensures
            r is Some <==> self@.panel(level as int) is Some && self@.level_menu(level as int)
                is Some,
            r matches Some(f) ==> (f.top, f.flyout@) == reported(self@, level as int),
    {
        let top: Option<usize> = match self.panel(level) {
            Some(p) => p.hovered,
            None => {
                return None;
            },
        };
        if self.menu_at_level(level).is_none() {
            return None;
        }
        let full: MenuFocus = self.current_focus();
        let mut flyout: Vec<FlyoutFocus> = Vec::new();
        let mut k: usize = level;
        while k < full.flyout.len()
            invariant
                full.flyout@ == self@.flyout_focus(),
                level <= k,
                level <= full.flyout@.len(),
                k <= full.flyout@.len(),
                flyout@ == self@.flyout_focus().subrange(level as int, k as int),
            decreases full.flyout@.len() - k,
        {
            flyout.push(full.flyout[k]);
            assert(flyout@ =~= self@.flyout_focus().subrange(level as int, k + 1));
            k = k + 1;
        }
        assert(flyout@ =~= self@.flyout_focus().skip(level as int));
        assert(self@.flyout_focus().skip(0) =~= self@.flyout_focus());
        Some(MenuFocus { top, flyout })
    }
}

/// Whether a row has a place in a layout.
fn lists(rows: &Vec<usize>, row: usize) -> (r: bool)
    ensures
        r == rows@.contains(row),
{
    let mut k: usize = 0;
    while k < rows.len()
        invariant
            k <= rows@.len(),
            forall|j: int| 0 <= j < k ==> #[trigger] rows@[j] != row,
        decreases rows@.len() - k,
    {
        if rows[k] == row {
            return true;
        }
        k = k + 1;
    }
    false
}

/// The effect of dispatching an id.
fn dispatch_effects(id: MenuId) -> (effects: Vec<Effect>)
    ensures
        effects@ == dispatches(id),
{
    let mut effects: Vec<Effect> = Vec::new();
    if !id.is_none() {
        effects.push(Effect::Dispatch(id));
    }
    assert(effects@ =~= dispatches(id));
    effects
}

} // verus!
