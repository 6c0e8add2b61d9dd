//! What the pointer, the keyboard and assistive technology can rely on: the windows that stay, open
//! and close, the rows that are highlighted, and the rows that are dispatched.
use vstd::prelude::*;

use crate::keynav::NavKey;
use crate::menu::{Item, Menu, MenuId};
use crate::session::{AxAction, Effect, Stack, WindowKind};

verus! {

/// Row `i` of `menu` is a submenu row.
pub open spec fn opens_a_submenu(menu: Menu, i: int) -> bool {
    0 <= i < menu.items@.len() && menu.items@[i] is Submenu
}

/// The highlighted row of an open level.
pub open spec fn highlight(s: Stack, level: int) -> Option<usize> {
    if level == 0 {
        s.popup->0.hovered
    } else {
        s.flyouts[level - 1].panel.hovered
    }
}

/// The rows that an open level laid out.
pub open spec fn layout(s: Stack, level: int) -> Seq<usize> {
    if level == 0 {
        s.popup->0.rows
    } else {
        s.flyouts[level - 1].panel.rows
    }
}

/// The first `n` flyouts are those of `s`, from the same rows, and the levels above the last of
/// them keep their highlights.
pub open spec fn keeps_levels(s: Stack, after: Stack, n: int) -> bool {
    &&& after.popup is Some
    &&& n <= after.flyouts.len()
    &&& forall|k: int| 0 <= k < n ==> (#[trigger] after.flyouts[k]).parent == s.flyouts[k].parent
    &&& forall|k: int| 0 <= k < n ==> #[trigger] highlight(after, k) == highlight(s, k)
}

/// The window of this level is among those to close.
pub open spec fn asks_to_close(effects: Seq<Effect>, level: usize) -> bool {
    exists|k: int| 0 <= k < effects.len() && #[trigger] effects[k] == Effect::Close(level)
}

/// The windows that close are exactly the flyouts that are gone, each closed once and the deeper
/// ones before the shallower.
pub open spec fn closes_what_is_gone(s: Stack, noted: Stack, effects: Seq<Effect>) -> bool {
    &&& forall|level: usize|
        #[trigger] asks_to_close(effects, level) <==> noted.flyouts.len() < level <= s.flyouts.len()
    &&& forall|a: int, b: int|
        0 <= a < b < effects.len() ==> ((#[trigger] effects[a]) matches Effect::Close(deep) ==> ((
        #[trigger] effects[b]) matches Effect::Close(shallow) ==> shallow < deep))
}

/// Opening flyouts touches nothing that is open.
pub proof fn lemma_opens_keep(
    s: Stack,
    rows: Seq<usize>,
    lays: spec_fn(Seq<usize>) -> Option<Seq<usize>>,
)
    ensures
        ({
            let after = crate::outcome::performed(s, crate::session::opens(rows), lays);
            &&& after.menu == s.menu
            &&& after.popup == s.popup
            &&& after.flyouts.len() >= s.flyouts.len()
            &&& forall|k: int|
                0 <= k < s.flyouts.len() ==> #[trigger] after.flyouts[k] == s.flyouts[k]
        }),
    decreases rows.len(),
{
    let all = crate::session::opens(rows);
    if rows.len() > 0 {
        lemma_opens_keep(s, rows.drop_last(), lays);
        assert(all.drop_last() =~= crate::session::opens(rows.drop_last()));
    }
}

/// Reconciling from a stack with the open rows `parents`: what is noted at once and what stands
/// once the effects are performed.
proof fn lemma_reconciled(
    s: Stack,
    target: Seq<usize>,
    lays: spec_fn(Seq<usize>) -> Option<Seq<usize>>,
)
    ensures
        ({
            let n = crate::flyout::common(s.parents(), target) as int;
            let noted = crate::session::reconciled(s, target);
            let effects = crate::session::reconcile_effects(s, target);
            let after = crate::outcome::performed(noted, effects, lays);
            &&& n <= s.flyouts.len()
            &&& n <= target.len()
            &&& s.parents().take(n) == target.take(n)
            &&& noted.flyouts == s.flyouts.take(n)
            &&& noted.popup == s.popup
            &&& noted.menu == s.menu
            &&& after.popup == s.popup
            &&& after.menu == s.menu
            &&& after.flyouts.len() >= n
            &&& forall|k: int| 0 <= k < n ==> #[trigger] after.flyouts[k] == s.flyouts[k]
            &&& target.len() == n ==> after == noted
            &&& target.len() == n + 1 ==> after == crate::outcome::step(
                noted,
                Effect::Open(target[n]),
                lays,
            )
        }),
{
    let n = crate::flyout::common(s.parents(), target) as int;
    crate::flyout::law_common_is_the_longest(s.parents(), target);
    assert(s.parents().len() == s.flyouts.len());
    let noted = crate::session::reconciled(s, target);
    let closing = crate::session::closes(s.flyouts.len() as int, n);
    let opening = crate::session::opens(target.skip(n));
    crate::outcome::law_effects_compose(noted, closing, opening, lays);
    crate::outcome::lemma_idle_effects(noted, closing, lays);
    lemma_opens_keep(noted, target.skip(n), lays);
    assert(noted.flyouts =~= s.flyouts.take(n));
    if target.len() == n {
        assert(opening =~= Seq::empty());
    }
    if target.len() == n + 1 {
        assert(opening =~= seq![Effect::Open(target[n])]);
        crate::outcome::lemma_one_effect(noted, Effect::Open(target[n]), lays);
    }
}

/// What closing from `len` to `n` flyouts asks for.
proof fn lemma_closes(len: int, n: int)
    requires
        0 <= n,
        len <= usize::MAX,
    ensures
        forall|level: usize|
            #[trigger] asks_to_close(crate::session::closes(len, n), level) <==> n < level <= len,
        forall|k: int|
            0 <= k < crate::session::closes(len, n).len() ==> #[trigger] crate::session::closes(
                len,
                n,
            )[k] == Effect::Close((len - k) as usize),
{
    let all = crate::session::closes(len, n);
    assert forall|level: usize|
        #[trigger] asks_to_close(all, level) <==> n < level <= len by {
        if n < level <= len {
            assert(all[len - level] == Effect::Close(level));
        }
    }
}

/// Effects that close what is gone keep doing so with others around them that close nothing.
proof fn lemma_closing_among_others(
    s: Stack,
    noted: Stack,
    first: Seq<Effect>,
    rest: Seq<Effect>,
    effects: Seq<Effect>,
)
    requires
        s.flyouts.len() <= usize::MAX,
        noted.flyouts.len() <= s.flyouts.len(),
        effects == first + crate::session::closes(
            s.flyouts.len() as int,
            noted.flyouts.len() as int,
        ) + rest,
        forall|k: int| 0 <= k < first.len() ==> !((#[trigger] first[k]) is Close),
        forall|k: int| 0 <= k < rest.len() ==> !((#[trigger] rest[k]) is Close),
    ensures
        closes_what_is_gone(s, noted, effects),
{
    let len = s.flyouts.len() as int;
    let n = noted.flyouts.len() as int;
    let mid = crate::session::closes(len, n);
    lemma_closes(len, n);
    assert forall|k: int| 0 <= k < effects.len() implies ((#[trigger] effects[k]) is Close <==> first.len()
        <= k < first.len() + mid.len()) by {
        if k < first.len() {
            assert(effects[k] == first[k]);
        } else if k < first.len() + mid.len() {
            assert(effects[k] == mid[k - first.len()]);
        } else {
            assert(effects[k] == rest[k - first.len() - mid.len()]);
        }
    }
    assert forall|level: usize|
        #[trigger] asks_to_close(effects, level) <==> n < level <= len by {
        if asks_to_close(effects, level) {
            let k = choose|k: int| 0 <= k < effects.len() && effects[k] == Effect::Close(level);
            assert(effects[k] is Close);
            assert(mid[k - first.len()] == effects[k]);
            assert(asks_to_close(mid, level));
        }
        if n < level <= len {
            let k = len - level;
            assert(mid[k] == Effect::Close(level));
            assert(effects[first.len() + k] == mid[k]);
        }
    }
    assert forall|a: int, b: int|
        0 <= a < b < effects.len() implies ((#[trigger] effects[a]) matches Effect::Close(deep) ==> ((
    #[trigger] effects[b]) matches Effect::Close(shallow) ==> shallow < deep)) by {
        if effects[a] is Close && effects[b] is Close {
            assert(effects[a] == mid[a - first.len()]);
            assert(effects[b] == mid[b - first.len()]);
        }
    }
}

/// Performing a list with idle effects at either end is performing what stands between them.
proof fn lemma_between_idle(
    s: Stack,
    first: Seq<Effect>,
    mid: Seq<Effect>,
    rest: Seq<Effect>,
    lays: spec_fn(Seq<usize>) -> Option<Seq<usize>>,
)
    requires
        forall|k: int| 0 <= k < first.len() ==> crate::outcome::idle(#[trigger] first[k]),
        forall|k: int| 0 <= k < rest.len() ==> crate::outcome::idle(#[trigger] rest[k]),
    ensures
        crate::outcome::performed(s, first + mid + rest, lays) == crate::outcome::performed(
            s,
            mid,
            lays,
        ),
{
    crate::outcome::law_effects_compose(s, first + mid, rest, lays);
    crate::outcome::law_effects_compose(s, first, mid, lays);
    crate::outcome::lemma_idle_effects(s, first, lays);
    crate::outcome::lemma_idle_effects(crate::outcome::performed(s, mid, lays), rest, lays);
}

/// What a pointer move over row `i` of an open level leaves: that level and those above it stay,
/// the row is highlighted, a plain row closes what is deeper, the row of an open flyout keeps
/// everything, and another submenu row has its own flyout in place of what was deeper.
pub open spec fn follows_the_pointer(
    s: Stack,
    level: int,
    i: usize,
    noted: Stack,
    after: Stack,
    lays: spec_fn(Seq<usize>) -> Option<Seq<usize>>,
) -> bool {
    let path = s.parents().take(level);
    let here = crate::menu::descended(s.menu, path)->0;
    &&& keeps_levels(s, noted, level)
    &&& keeps_levels(s, after, level)
    &&& highlight(noted, level) == Some(i)
    &&& highlight(after, level) == Some(i)
    &&& !opens_a_submenu(here, i as int) ==> noted.flyouts.len() == level && after.flyouts.len()
        == level
    &&& opens_a_submenu(here, i as int) && level < s.flyouts.len() && s.flyouts[level].parent == i
        ==> noted.flyouts.skip(level) == s.flyouts.skip(level) && after.flyouts.skip(level)
        == s.flyouts.skip(level)
    &&& opens_a_submenu(here, i as int) && !(level < s.flyouts.len() && s.flyouts[level].parent
        == i) ==> {
        &&& noted.flyouts.len() == level
        &&& layout(s, level).contains(i) && lays(path.push(i)) is Some ==> after.parents()
            == path.push(i)
        &&& !layout(s, level).contains(i) || lays(path.push(i)) is None ==> after.flyouts.len()
            == level
    }
}

/// The heart of both kinds of pointer move.
proof fn lemma_follows(
    s: Stack,
    s1: Stack,
    level: int,
    i: usize,
    lays: spec_fn(Seq<usize>) -> Option<Seq<usize>>,
)
    requires
        s.wf(),
        s.popup is Some,
        0 <= level <= s.flyouts.len(),
        level <= usize::MAX,
        s1 == if crate::session::hover_changes(s, level, Some(i)) {
            s.selected(level, Some(i))
        } else {
            s
        },
    ensures
        ({
            let next = crate::flyout::hovered_stack(
                s.parents(),
                crate::session::pointed(s, level, Some(i)),
            );
            let noted = crate::session::reconciled(s1, next);
            let after = crate::outcome::performed(
                noted,
                crate::session::reconcile_effects(s1, next),
                lays,
            );
            follows_the_pointer(s, level, i, noted, after, lays)
        }),
{
    let parents = s.parents();
    let path = parents.take(level);
    assert(parents.len() == s.flyouts.len());
    assert(s1.parents() =~= parents);
    crate::menu::lemma_prefix_resolves(s.menu, parents, level);
    assert(crate::flyout::levels(parents, level) =~= path);
    let here = crate::menu::descended(s.menu, path)->0;
    assert(s.is_parent(level, i as int) == opens_a_submenu(here, i as int));
    let next = crate::flyout::hovered_stack(parents, crate::session::pointed(s, level, Some(i)));
    let noted = crate::session::reconciled(s1, next);
    let after = crate::outcome::performed(
        noted,
        crate::session::reconcile_effects(s1, next),
        lays,
    );
    let n = crate::flyout::common(parents, next) as int;
    crate::flyout::law_common_is_the_longest(parents, next);
    lemma_reconciled(s1, next, lays);
    assert(s1.popup is Some);
    assert(s1.flyouts.len() == s.flyouts.len());
    assert forall|k: int| 0 <= k < s.flyouts.len() implies (#[trigger] s1.flyouts[k]).parent
        == s.flyouts[k].parent by {}
    assert forall|k: int| 0 <= k < level implies #[trigger] highlight(s1, k) == highlight(s, k) by {}
    assert(highlight(s1, level) == Some(i));
    let open = level < s.flyouts.len() && s.flyouts[level].parent == i;
    if !opens_a_submenu(here, i as int) {
        assert(next =~= path);
        assert(crate::flyout::longest_shared(parents, next, level));
        assert(n == level);
    } else if open {
        assert(parents[level] == i);
        assert(next =~= parents);
        crate::flyout::law_common_extremes(parents);
        assert(n == s.flyouts.len());
        assert(noted.flyouts =~= s1.flyouts);
        assert(after.flyouts =~= s1.flyouts);
        assert(noted.flyouts.skip(level) =~= s.flyouts.skip(level));
    } else {
        assert(next =~= path.push(i));
        assert(next.take(level) =~= path);
        if level < s.flyouts.len() {
            assert(parents[level] != i);
        }
        assert(crate::flyout::longest_shared(parents, next, level));
        assert(n == level);
        assert(noted.parents() =~= path);
        assert(crate::flyout::levels(noted.parents(), level) =~= path);
        assert(noted.panel(level) == s1.panel(level));
        assert(noted.may_open(i) == layout(s, level).contains(i));
        if after != noted {
            assert(after.parents() =~= path.push(i));
        }
    }
    assert(level <= n);
    assert forall|k: int| 0 <= k < level implies #[trigger] highlight(noted, k) == highlight(s, k)
        && highlight(after, k) == highlight(s, k) by {
        assert(highlight(s1, k) == highlight(s, k));
        if k > 0 {
            assert(noted.flyouts[k - 1] == s1.flyouts[k - 1]);
            assert(after.flyouts[k - 1] == s1.flyouts[k - 1]);
        }
    }
    assert forall|k: int| 0 <= k < level implies (#[trigger] noted.flyouts[k]).parent
        == s.flyouts[k].parent by {
        assert(noted.flyouts[k] == s1.flyouts[k]);
    }
    assert forall|k: int| 0 <= k < level implies (#[trigger] after.flyouts[k]).parent
        == s.flyouts[k].parent by {
        assert(after.flyouts[k] == s1.flyouts[k]);
    }
    if level > 0 {
        assert(noted.flyouts[level - 1] == s1.flyouts[level - 1]);
        assert(after.flyouts[level - 1] == s1.flyouts[level - 1]);
    }
}

/// The pointer keeps open what it is in: a move over a row of an open panel, on a surface that
/// holds every panel as well as in a window of its own, keeps that panel and every level above it,
/// highlights the row, and changes the deeper levels as the row asks.
pub proof fn law_the_pointer_keeps_the_panel_it_is_in(
    s: Stack,
    level: usize,
    i: usize,
    lays: spec_fn(Seq<usize>) -> Option<Seq<usize>>,
)
    requires
        s.wf(),
        s.popup is Some,
        level <= s.flyouts.len() <= usize::MAX,
    ensures
        ({
            let (noted, effects) = crate::session::moved_over(s, Some((level, Some(i))));
            let after = crate::outcome::performed(noted, effects, lays);
            &&& follows_the_pointer(s, level as int, i, noted, after, lays)
            &&& closes_what_is_gone(s, noted, effects)
            &&& effects.contains(Effect::Redraw(level)) <==> highlight(s, level as int) != Some(i)
        }),
        ({
            let (noted, effects) = crate::session::moved_within(s, level as int, Some(i));
            let after = crate::outcome::performed(noted, effects, lays);
            &&& follows_the_pointer(s, level as int, i, noted, after, lays)
            &&& closes_what_is_gone(s, noted, effects)
            &&& effects.contains(Effect::Redraw(level)) <==> highlight(s, level as int) != Some(i)
            &&& effects.len() > 0 && effects.last() == Effect::Sync
        }),
{
    let changes = crate::session::hover_changes(s, level as int, Some(i));
    assert(changes == (highlight(s, level as int) != Some(i)));
    let s1 = if changes {
        s.selected(level as int, Some(i))
    } else {
        s
    };
    assert(s1.parents() =~= s.parents());
    assert(s1.flyouts.len() == s.flyouts.len());
    let next = crate::flyout::hovered_stack(
        s.parents(),
        crate::session::pointed(s, level as int, Some(i)),
    );
    lemma_follows(s, s1, level as int, i, lays);
    lemma_reconciled(s1, next, lays);
    let noted = crate::session::reconciled(s1, next);
    let mid = crate::session::reconcile_effects(s1, next);
    let n = crate::flyout::common(s1.parents(), next) as int;
    let closing = crate::session::closes(s.flyouts.len() as int, n);
    let opening = crate::session::opens(next.skip(n));
    assert(noted.flyouts.len() == n);
    let none = Seq::<Effect>::empty();
    let redraw = seq![Effect::Redraw(level)];
    let sync = seq![Effect::Sync];

    let over = crate::session::moved_over(s, Some((level, Some(i)))).1;
    let tail = if changes {
        redraw
    } else {
        none
    };
    assert(over =~= none + mid + tail);
    lemma_between_idle(noted, none, mid, tail, lays);
    assert(over =~= none + closing + (opening + tail));
    lemma_closing_among_others(s, noted, none, opening + tail, over);
    lemma_closes(s.flyouts.len() as int, n);
    if changes {
        assert(over[over.len() - 1] == Effect::Redraw(level));
    }
    assert(!mid.contains(Effect::Redraw(level))) by {
        if mid.contains(Effect::Redraw(level)) {
            let k = choose|k: int| 0 <= k < mid.len() && mid[k] == Effect::Redraw(level);
            if k < closing.len() {
                assert(mid[k] == closing[k]);
            } else {
                assert(mid[k] == opening[k - closing.len()]);
            }
        }
    }
    if !changes && over.contains(Effect::Redraw(level)) {
        assert(over =~= mid);
    }

    let within = crate::session::moved_within(s, level as int, Some(i)).1;
    assert(within =~= tail + mid + sync);
    lemma_between_idle(noted, tail, mid, sync, lays);
    assert(within =~= tail + closing + (opening + sync));
    lemma_closing_among_others(s, noted, tail, opening + sync, within);
    if changes {
        assert(within[0] == Effect::Redraw(level));
    } else if within.contains(Effect::Redraw(level)) {
        let k = choose|k: int| 0 <= k < within.len() && within[k] == Effect::Redraw(level);
        assert(mid[k] == within[k]);
    }
}

/// Between the rows of a flyout the pointer changes nothing but the highlight; between those of the
/// popup, outside every panel, and between the rows of any window of its own, every flyout closes.
pub proof fn law_the_pointer_between_rows(
    s: Stack,
    level: usize,
    lays: spec_fn(Seq<usize>) -> Option<Seq<usize>>,
)
    requires
        s.popup is Some,
        level <= s.flyouts.len() <= usize::MAX,
    ensures
        ({
            let (noted, effects) = crate::session::moved_over(s, Some((level, None)));
            let after = crate::outcome::performed(noted, effects, lays);
            &&& after == noted
            &&& highlight(noted, level as int) is None
            &&& keeps_levels(s, noted, level as int)
            &&& noted.flyouts.len() == if level == 0 {
                0
            } else {
                s.flyouts.len()
            }
            &&& closes_what_is_gone(s, noted, effects)
            &&& effects.contains(Effect::Redraw(level)) <==> highlight(s, level as int) is Some
        }),
        ({
            let (noted, effects) = crate::session::moved_over(s, None);
            let after = crate::outcome::performed(noted, effects, lays);
            &&& after == noted
            &&& noted.popup == s.popup
            &&& noted.menu == s.menu
            &&& noted.flyouts.len() == 0
            &&& closes_what_is_gone(s, noted, effects)
            &&& effects.len() == s.flyouts.len()
        }),
        ({
            let (noted, effects) = crate::session::moved_within(s, level as int, None);
            let after = crate::outcome::performed(noted, effects, lays);
            &&& after == noted
            &&& noted.menu == s.menu
            &&& noted.popup is Some
            &&& level == 0 ==> highlight(noted, 0) is None
            &&& level > 0 ==> noted.popup == s.popup
            &&& noted.flyouts.len() == 0
            &&& closes_what_is_gone(s, noted, effects)
            &&& effects.contains(Effect::Redraw(level)) <==> highlight(s, level as int) is Some
            &&& effects.len() > 0 && effects.last() == Effect::Sync
        }),
{
    let parents = s.parents();
    assert(parents.len() == s.flyouts.len());
    let changes = crate::session::hover_changes(s, level as int, None);
    assert(changes == (highlight(s, level as int) is Some));
    let s1 = if changes {
        s.selected(level as int, None)
    } else {
        s
    };
    assert(s1.parents() =~= parents);
    let none = Seq::<Effect>::empty();
    let redraw = seq![Effect::Redraw(level)];
    let sync = seq![Effect::Sync];
    let tail = if changes {
        redraw
    } else {
        none
    };
    let empty = Seq::<usize>::empty();
    let len = s.flyouts.len() as int;
    crate::flyout::law_common_extremes(parents);

    let next = if level == 0 {
        empty
    } else {
        parents
    };
    assert(crate::flyout::levels(parents, 0) =~= empty);
    assert(crate::flyout::hovered_stack(parents, crate::session::pointed(s, level as int, None))
        == next);
    let (noted, over) = crate::session::moved_over(s, Some((level, None)));
    lemma_reconciled(s1, next, lays);
    let n = if level == 0 {
        0
    } else {
        len
    };
    assert(crate::flyout::common(parents, next) == n);
    assert(next.skip(n) =~= empty);
    let closing = crate::session::closes(len, n);
    assert(crate::session::opens(next.skip(n)) =~= none);
    assert(crate::session::reconcile_effects(s1, next) =~= closing);
    assert(over =~= none + closing + tail);
    lemma_between_idle(noted, none, closing, tail, lays);
    lemma_closing_among_others(s, noted, none, tail, over);
    lemma_closes(len, n);
    assert(noted.flyouts =~= s1.flyouts.take(n));
    assert forall|k: int| 0 <= k < level implies #[trigger] highlight(noted, k) == highlight(s, k) by {
        if k > 0 {
            assert(noted.flyouts[k - 1] == s1.flyouts[k - 1]);
        }
    }
    assert forall|k: int| 0 <= k < level implies (#[trigger] noted.flyouts[k]).parent
        == s.flyouts[k].parent by {
        assert(noted.flyouts[k] == s1.flyouts[k]);
    }
    if changes {
        assert(over[over.len() - 1] == Effect::Redraw(level));
    } else {
        assert(over =~= closing);
    }

    let (out, leaving) = crate::session::moved_over(s, None);
    lemma_reconciled(s, empty, lays);
    let all = crate::session::closes(len, 0);
    assert(empty.skip(0) =~= empty);
    assert(crate::session::opens(empty) =~= none);
    assert(leaving =~= all);
    assert(leaving =~= none + all + none);
    lemma_closing_among_others(s, out, none, none, leaving);

    let (inside, within) = crate::session::moved_within(s, level as int, None);
    lemma_reconciled(s1, empty, lays);
    assert(crate::session::reconcile_effects(s1, empty) =~= all);
    assert(within =~= tail + all + sync);
    lemma_between_idle(inside, tail, all, sync, lays);
    lemma_closing_among_others(s, inside, tail, sync, within);
    lemma_closes(len, 0);
    if changes {
        assert(within[0] == Effect::Redraw(level));
    } else if within.contains(Effect::Redraw(level)) {
        let k = choose|k: int| 0 <= k < within.len() && within[k] == Effect::Redraw(level);
        if k < all.len() {
            assert(all[k] == within[k]);
        }
    }
}

/// A pointer in a window that is not open changes nothing that is open above it: on a surface that
/// holds every panel it counts as outside, in a window of its own it is passed over.
pub proof fn law_the_pointer_in_a_closed_panel(s: Stack, level: usize, row: Option<usize>)
    requires
        s.flyouts.len() < level || s.popup is None && level == 0,
    ensures
        crate::session::moved_over(s, Some((level, row))) == crate::session::moved_over(s, None),
        crate::session::moved_within(s, level as int, row) == (s, Seq::<Effect>::empty()),
{
}

/// A click on a submenu row of an open level opens its flyout in place of everything deeper and
/// dispatches nothing; a click on another row dispatches its id, where it has one, and dismisses
/// the menu; a click on nothing that has an id leaves all as it is.
pub proof fn law_a_click_opens_or_dispatches(
    s: Stack,
    level: usize,
    row: Option<usize>,
    id: Option<MenuId>,
    lays: spec_fn(Seq<usize>) -> Option<Seq<usize>>,
)
    requires
        s.wf(),
        s.popup is Some,
        level <= s.flyouts.len() <= usize::MAX,
    ensures
        ({
            let (noted, effects, dismissed) = crate::session::clicked(s, level as int, row, id);
            let after = crate::outcome::performed(noted, effects, lays);
            let path = s.parents().take(level as int);
            let here = crate::menu::descended(s.menu, path)->0;
            let parent = row is Some && opens_a_submenu(here, row->0 as int);
            &&& parent ==> {
                &&& !dismissed
                &&& noted.flyouts == s.flyouts.take(level as int)
                &&& noted.popup == s.popup
                &&& keeps_levels(s, after, level as int)
                &&& closes_what_is_gone(s, noted, effects)
                &&& layout(s, level as int).contains(row->0) && lays(path.push(row->0)) is Some
                    ==> after.parents() == path.push(row->0)
                &&& forall|k: int| 0 <= k < effects.len() ==> !((#[trigger] effects[k]) is Dispatch)
            }
            &&& !parent ==> noted == s && match id {
                Some(id) => dismissed && effects == if id.0@.len() > 0 {
                    seq![Effect::Dispatch(id)]
                } else {
                    Seq::empty()
                },
                None => !dismissed && effects.len() == 0,
            }
        }),
{
    let parents = s.parents();
    let path = parents.take(level as int);
    assert(parents.len() == s.flyouts.len());
    crate::menu::lemma_prefix_resolves(s.menu, parents, level as int);
    assert(crate::flyout::levels(parents, level as int) =~= path);
    let here = crate::menu::descended(s.menu, path)->0;
    if row is Some && opens_a_submenu(here, row->0 as int) {
        let i = row->0;
        let (noted, effects, dismissed) = crate::session::clicked(s, level as int, row, id);
        let len = s.flyouts.len() as int;
        let closing = crate::session::closes(len, level as int);
        let open = seq![Effect::Open(i)];
        let none = Seq::<Effect>::empty();
        assert(noted.flyouts =~= s.flyouts.take(level as int));
        assert(effects =~= none + closing + open);
        lemma_closing_among_others(s, noted, none, open, effects);
        lemma_closes(len, level as int);
        crate::outcome::law_effects_compose(noted, closing, open, lays);
        assert(effects =~= closing + open);
        crate::outcome::lemma_idle_effects(noted, closing, lays);
        crate::outcome::lemma_one_effect(noted, Effect::Open(i), lays);
        assert(noted.parents() =~= path);
        assert(crate::flyout::levels(noted.parents(), level as int) =~= path);
        let after = crate::outcome::performed(noted, effects, lays);
        assert(after == crate::outcome::step(noted, Effect::Open(i), lays));
        if after != noted {
            assert(after.parents() =~= path.push(i));
        }
        if level > 0 {
            assert(noted.flyouts[level - 1] == s.flyouts[level - 1]);
        }
        assert(noted.may_open(i) == layout(s, level as int).contains(i));
        assert forall|k: int| 0 <= k < level implies #[trigger] highlight(after, k) == highlight(
            s,
            k,
        ) by {
            if k > 0 {
                assert(after.flyouts[k - 1] == s.flyouts[k - 1]);
            }
        }
        assert forall|k: int| 0 <= k < effects.len() implies !((#[trigger] effects[k])
            is Dispatch) by {
            if k < closing.len() {
                assert(effects[k] == closing[k]);
            }
        }
    }
}

/// A click in a panel that is not open does nothing, whatever it claims to hit.
pub proof fn law_a_click_in_a_closed_panel(
    s: Stack,
    level: usize,
    row: Option<usize>,
    id: Option<MenuId>,
)
    requires
        s.flyouts.len() < level || s.popup is None && level == 0,
    ensures
        crate::session::clicked(s, level as int, row, id) == (s, Seq::<Effect>::empty(), false),
{
}

/// The row that a key acts on: the highlighted one of the deepest open level.
pub open spec fn selected_row(s: Stack) -> Option<usize> {
    if s.flyouts.len() > 0 {
        s.flyouts.last().panel.hovered
    } else {
        match s.popup {
            Some(p) => p.hovered,
            None => None,
        }
    }
}

/// Enter and Space dispatch row `i` of `menu`: an enabled row whose id is not empty.
pub open spec fn dispatches_row(menu: Menu, i: int) -> bool {
    0 <= i < menu.items@.len() && (menu.items@[i] matches Item::Row(row) && row.enabled
        && row.id.0@.len() > 0)
}

/// Escape dismisses the menu whatever is open and dispatches nothing; Enter and Space dismiss it
/// exactly where the selected row is one that dispatches, and dispatch that row; no other key
/// dismisses or dispatches. A dismissing key leaves the panels alone.
pub proof fn law_what_keys_dismiss(s: Stack, key: NavKey)
    requires
        s.wf(),
    ensures
        crate::session::keyed(s, NavKey::Escape) == (s, Seq::<Effect>::empty(), true),
        crate::session::keyed_aloud(s, NavKey::Escape) == (s, Seq::<Effect>::empty(), true),
        ({
            let level = crate::menu::descended(s.menu, s.parents())->0;
            let row = selected_row(s);
            let chosen = key is Activate && row is Some && dispatches_row(level, row->0 as int);
            let (noted, effects, dismissed) = crate::session::keyed(s, key);
            &&& dismissed <==> key is Escape || chosen
            &&& dismissed ==> noted == s
            &&& chosen ==> (level.items@[row->0 as int] matches Item::Row(r) && effects == seq![
                Effect::Dispatch(r.id),
            ])
            &&& !chosen ==> forall|k: int|
                0 <= k < effects.len() ==> !((#[trigger] effects[k]) is Dispatch)
            &&& crate::session::keyed_aloud(s, key).2 == dismissed
            &&& dismissed ==> crate::session::keyed_aloud(s, key).1 == effects
        }),
{
    let focus = s.flyout_focus();
    assert(crate::keynav::parents_of(focus) =~= s.parents());
    assert(s.selected(0, s.top()) =~= s);
    assert(s.parents().len() == s.flyouts.len());
    assert(focus.len() == s.flyouts.len());
    assert(crate::keynav::deepest_selection(s.top(), focus) == selected_row(s));
    let (action, top, flyout) = crate::keynav::navigated(s.menu, s.top(), focus, key);
    let (noted, effects, dismissed) = crate::session::keyed(s, key);
    if !dismissed {
        assert forall|k: int| 0 <= k < effects.len() implies !((#[trigger] effects[k])
            is Dispatch) by {}
    }
}

/// A key that asks for anything and keeps the menu has every panel painted again, after whatever
/// else it asks for, and, where the focus is reported, reports it last; a key that asks for nothing
/// leaves the panels as they are. The windows that close are those that are gone.
pub proof fn law_a_key_repaints_what_it_changes(s: Stack, key: NavKey)
    requires
        s.wf(),
        s.flyouts.len() <= usize::MAX,
    ensures
        ({
            let (noted, effects, dismissed) = crate::session::keyed(s, key);
            let (noted_too, aloud, _) = crate::session::keyed_aloud(s, key);
            &&& noted_too == noted
            &&& effects.len() == 0 ==> noted == s && aloud.len() == 0
            &&& effects.len() > 0 && !dismissed ==> {
                &&& effects.last() == Effect::RedrawAll
                &&& aloud == effects.push(Effect::Sync)
            }
            &&& closes_what_is_gone(s, noted, effects)
            &&& noted.flyouts.len() < s.flyouts.len() <==> key is Left && s.flyouts.len() > 0
            &&& key is Left && s.flyouts.len() > 0 ==> noted.flyouts == s.flyouts.drop_last()
        }),
{
    let focus = s.flyout_focus();
    assert(crate::keynav::parents_of(focus) =~= s.parents());
    assert(s.selected(0, s.top()) =~= s);
    assert(focus.len() == s.flyouts.len());
    let (action, top, flyout) = crate::keynav::navigated(s.menu, s.top(), focus, key);
    let (noted, effects, dismissed) = crate::session::keyed(s, key);
    let len = s.flyouts.len() as int;
    let none = Seq::<Effect>::empty();
    assert(crate::session::closes(len, len) =~= none);
    if action is CloseFlyout {
        let closing = crate::session::closes(len, len - 1);
        assert(effects =~= none + closing + seq![Effect::RedrawAll]);
        assert(flyout =~= focus.drop_last());
        assert(noted.flyouts =~= s.flyouts.drop_last());
        lemma_closing_among_others(s, noted, none, seq![Effect::RedrawAll], effects);
    } else {
        assert(noted.flyouts.len() == len);
        assert(effects =~= none + crate::session::closes(len, len) + effects);
        assert forall|k: int| 0 <= k < effects.len() implies !((#[trigger] effects[k]) is Close) by {}
        lemma_closing_among_others(s, noted, none, effects, effects);
    }
}

/// Clicking a submenu row by its path opens it: once the host has opened and laid out every window
/// on the way, exactly the flyouts of the path are open, those that were open already were not
/// touched, the popup highlights the row that the path begins with, and the menu stays.
pub proof fn law_assistive_technology_opens_submenus(
    s: Stack,
    path: Seq<usize>,
    lays: spec_fn(Seq<usize>) -> Option<Seq<usize>>,
)
    requires
        s.popup is Some,
        path.len() > 0,
        crate::menu::descended(s.menu, path) is Some,
        ({
            let n = crate::flyout::common(s.parents(), path) as int;
            crate::outcome::offers(s.panel(n), path, n) && crate::outcome::leads_to(lays, path, n)
        }),
    ensures
        ({
            let (noted, effects, dismissed) = crate::session::acted(s, path, AxAction::Click);
            let after = crate::outcome::performed(noted, effects, lays);
            &&& !dismissed
            &&& after.parents() == path
            &&& after.top() == Some(path[0])
            &&& forall|k: int|
                #![trigger after.flyouts[k]]
                0 <= k < path.len() && k < s.flyouts.len() && s.parents().take(k + 1) == path.take(
                    k + 1,
                ) ==> after.flyouts[k] == s.flyouts[k]
            &&& effects.last() == Effect::Sync
            &&& forall|k: int| 0 <= k < effects.len() ==> !((#[trigger] effects[k]) is Dispatch)
        }),
{
    let (noted, effects, dismissed) = crate::session::acted(s, path, AxAction::Click);
    let n = crate::flyout::common(s.parents(), path) as int;
    crate::flyout::law_common_is_the_longest(s.parents(), path);
    crate::outcome::law_reconciling_reaches_the_target(s, path, lays);
    let first = crate::session::reconcile_effects(s, path);
    let top = seq![Effect::Select { level: 0, row: Some(path[0]) }];
    let sync = seq![Effect::Sync];
    assert(effects =~= first + top + sync);
    crate::outcome::law_effects_compose(noted, first + top, sync, lays);
    crate::outcome::law_effects_compose(noted, first, top, lays);
    let s1 = crate::outcome::performed(noted, first, lays);
    let s2 = s1.selected(0, Some(path[0]));
    crate::outcome::lemma_one_effect(s1, top[0], lays);
    crate::outcome::lemma_idle_effects(s2, sync, lays);
    assert(s2.flyouts == s1.flyouts);
    assert(s2.parents() =~= s1.parents());
    let after = crate::outcome::performed(noted, effects, lays);
    assert forall|k: int|
        #![trigger after.flyouts[k]]
        0 <= k < path.len() && k < s.flyouts.len() && s.parents().take(k + 1) == path.take(
            k + 1,
        ) implies after.flyouts[k] == s.flyouts[k] by {
        assert(s.parents().len() == s.flyouts.len());
        if k >= n {
            assert(n < s.parents().len() && n < path.len());
            assert(s.parents().take(k + 1)[n] == path.take(k + 1)[n]);
        }
        assert(s1.flyouts.take(n)[k] == s.flyouts.take(n)[k]);
        assert(s1.parents().len() == s1.flyouts.len());
    }
    assert forall|k: int| 0 <= k < effects.len() implies !((#[trigger] effects[k]) is Dispatch) by {
        if k < first.len() {
            assert(effects[k] == first[k]);
        }
    }
}

/// Clicking by its path a row that is no submenu row dismisses the menu and dispatches the id of
/// the row, where the path leads to one that has an id; the panels are left alone. Anything else
/// that is asked of a row, and anything asked of no row, does nothing.
pub proof fn law_assistive_technology_dispatches_rows(s: Stack, path: Seq<usize>, action: AxAction)
    ensures
        path.len() == 0 || action is Other ==> crate::session::acted(s, path, action) == (
            s,
            Seq::<Effect>::empty(),
            false,
        ),
        path.len() > 0 && crate::menu::descended(s.menu, path) is None ==> {
            let (noted, effects, dismissed) = crate::session::acted(s, path, AxAction::Click);
            let above = crate::menu::descended(s.menu, path.drop_last());
            let hit = above matches Some(level) && path.last() < level.items@.len() && (
            level.items@[path.last() as int] matches Item::Row(row) && row.id.0@.len() > 0);
            &&& noted == s
            &&& dismissed
            &&& hit ==> (above->0.items@[path.last() as int] matches Item::Row(row) && effects
                == seq![Effect::Dispatch(row.id)])
            &&& !hit ==> effects.len() == 0
        },
{
}

/// Focusing a row by its path never dismisses or dispatches, repaints every panel and reports the
/// focus at the end, and closes only what is not on the way to the row.
pub proof fn law_focusing_only_moves_the_focus(s: Stack, path: Seq<usize>)
    requires
        path.len() > 0,
        s.flyouts.len() <= usize::MAX,
    ensures
        ({
            let (noted, effects, dismissed) = crate::session::acted(s, path, AxAction::Focus);
            &&& !dismissed
            &&& effects.len() >= 2 && effects.last() == Effect::Sync && effects[effects.len() - 2]
                == Effect::RedrawAll
            &&& closes_what_is_gone(s, noted, effects)
            &&& noted.popup == s.popup
            &&& crate::flyout::longest_shared(
                s.parents(),
                path.drop_last(),
                noted.flyouts.len() as int,
            )
            &&& forall|k: int| 0 <= k < effects.len() ==> !((#[trigger] effects[k]) is Dispatch)
        }),
{
    let above = path.drop_last();
    let (noted, effects, dismissed) = crate::session::acted(s, path, AxAction::Focus);
    let n = crate::flyout::common(s.parents(), above) as int;
    crate::flyout::law_common_is_the_longest(s.parents(), above);
    assert(s.parents().len() == s.flyouts.len());
    assert(noted.flyouts.len() == n);
    let closing = crate::session::closes(s.flyouts.len() as int, n);
    let rest = crate::session::opens(above.skip(n)) + seq![
        Effect::Select { level: (path.len() - 1) as usize, row: Some(path.last()) },
        Effect::Select { level: 0, row: Some(path[0]) },
        Effect::RedrawAll,
        Effect::Sync,
    ];
    assert(effects =~= Seq::<Effect>::empty() + closing + rest);
    lemma_closing_among_others(s, noted, Seq::empty(), rest, effects);
    assert forall|k: int| 0 <= k < effects.len() implies !((#[trigger] effects[k]) is Dispatch) by {
        if k < closing.len() {
            assert(effects[k] == closing[k]);
        } else {
            assert(effects[k] == rest[k - closing.len()]);
        }
    }
}

/// A row is the same whichever window it is named in: descending from the menu of a level along a
/// path is descending from the top along the path that leads through that level.
pub proof fn law_a_row_is_the_same_from_every_level(s: Stack, level: int, path: Seq<usize>)
    requires
        s.wf(),
        0 <= level <= s.flyouts.len(),
    ensures
        s.level_menu(level) is Some,
        s.level_menu(level) == crate::menu::descended(s.menu, s.parents().take(level)),
        crate::menu::descended(
            s.menu,
            crate::flyout::levels(s.parents(), level) + path,
        ) == crate::menu::descended(s.level_menu(level)->0, path),
{
    assert(s.parents().len() == s.flyouts.len());
    assert(crate::flyout::levels(s.parents(), level) =~= s.parents().take(level));
    crate::menu::lemma_prefix_resolves(s.menu, s.parents(), level);
    crate::menu::law_descend_composes(s.menu, s.parents().take(level), path);
}

/// Every open panel reports the same focused row: its own highlight and the flyouts below it end at
/// the selected row of the deepest level, and the flyouts are those that are open below it.
pub proof fn law_every_panel_reports_the_same_focus(s: Stack, level: int)
    requires
        s.popup is Some,
        0 <= level <= s.flyouts.len(),
    ensures
        ({
            let (top, flyout) = crate::session::reported(s, level);
            &&& top == highlight(s, level)
            &&& flyout.len() == s.flyouts.len() - level
            &&& forall|k: int|
                0 <= k < flyout.len() ==> (#[trigger] flyout[k]).parent == s.flyouts[level
                    + k].parent && flyout[k].child == highlight(s, level + k + 1)
            &&& crate::keynav::deepest_selection(top, flyout) == selected_row(s)
        }),
{
    let (top, flyout) = crate::session::reported(s, level);
    assert(s.flyout_focus().len() == s.flyouts.len());
    if flyout.len() > 0 {
        assert(flyout.last() == s.flyout_focus().last());
    }
}

/// A flyout can open exactly from a row that leads to a submenu of the deepest open level and that
/// the panel of that level laid out.
pub proof fn law_what_can_open(s: Stack, parent: usize)
    requires
        s.wf(),
        s.popup is Some,
    ensures
        s.may_open(parent) <==> crate::menu::descended(s.menu, s.parents().push(parent)) is Some
            && layout(s, s.flyouts.len() as int).contains(parent),
{
    let depth = s.flyouts.len() as int;
    assert(s.parents().len() == depth);
    assert(crate::flyout::levels(s.parents(), depth) =~= s.parents());
    assert(s.parents().push(parent).drop_last() =~= s.parents());
}

/// Highlighting, laying out, closing and opening change what they name and nothing else.
pub proof fn law_changes_stay_where_they_are(
    s: Stack,
    level: int,
    row: Option<usize>,
    rows: Seq<usize>,
    parent: usize,
    k: int,
)
    requires
        s.popup is Some,
        0 <= level <= s.flyouts.len(),
        0 <= k <= s.flyouts.len(),
    ensures
        s.selected(level, row).parents() == s.parents(),
        s.selected(level, row).menu == s.menu,
        s.selected(level, row).popup is Some,
        highlight(s.selected(level, row), k) == if k == level {
            row
        } else {
            highlight(s, k)
        },
        layout(s.selected(level, row), k) == layout(s, k),
        s.repainted(level, rows).parents() == s.parents(),
        s.repainted(level, rows).popup is Some,
        highlight(s.repainted(level, rows), k) == highlight(s, k),
        layout(s.repainted(level, rows), k) == if k == level {
            rows
        } else {
            layout(s, k)
        },
        s.truncated(level).flyouts == s.flyouts.take(level),
        s.truncated(level).popup == s.popup,
        s.opened(parent, rows).parents() == s.parents().push(parent),
        s.opened(parent, rows).popup == s.popup,
        s.opened(parent, rows).flyouts.drop_last() == s.flyouts,
        s.opened(parent, rows).truncated(s.flyouts.len() as int) == s,
        highlight(s.opened(parent, rows), s.flyouts.len() as int + 1) is None,
        layout(s.opened(parent, rows), s.flyouts.len() as int + 1) == rows,
{
    assert(s.selected(level, row).parents() =~= s.parents());
    assert(s.repainted(level, rows).parents() =~= s.parents());
    assert(s.truncated(level).flyouts =~= s.flyouts.take(level));
    assert(s.opened(parent, rows).parents() =~= s.parents().push(parent));
    assert(s.opened(parent, rows).flyouts.drop_last() =~= s.flyouts);
    assert(s.opened(parent, rows).flyouts.take(s.flyouts.len() as int) =~= s.flyouts);
}

/// Reconciling closes no window that is on the way to its target and every other one.
pub proof fn law_reconciling_closes_only_what_is_not_shared(s: Stack, target: Seq<usize>)
    requires
        s.flyouts.len() <= usize::MAX,
    ensures
        ({
            let noted = crate::session::reconciled(s, target);
            let effects = crate::session::reconcile_effects(s, target);
            let n = noted.flyouts.len() as int;
            &&& crate::flyout::longest_shared(s.parents(), target, n)
            &&& noted == s.truncated(n)
            &&& closes_what_is_gone(s, noted, effects)
            &&& effects.len() == s.flyouts.len() - n + target.len() - n
            &&& forall|k: int|
                n <= k < target.len() ==> effects[s.flyouts.len() - n + k - n] == Effect::Open(
                    #[trigger] target[k],
                )
        }),
{
    let noted = crate::session::reconciled(s, target);
    let effects = crate::session::reconcile_effects(s, target);
    let n = crate::flyout::common(s.parents(), target) as int;
    crate::flyout::law_common_is_the_longest(s.parents(), target);
    assert(s.parents().len() == s.flyouts.len());
    assert(noted.flyouts.len() == n);
    let closing = crate::session::closes(s.flyouts.len() as int, n);
    let opening = crate::session::opens(target.skip(n));
    assert(effects =~= Seq::<Effect>::empty() + closing + opening);
    lemma_closing_among_others(s, noted, Seq::empty(), opening, effects);
    assert forall|k: int| n <= k < target.len() implies effects[s.flyouts.len() - n + k - n]
        == Effect::Open(#[trigger] target[k]) by {
        assert(opening[k - n] == Effect::Open(target[k]));
    }
}

/// A popup that is painted anew loses its flyouts, is drawn, and has its focus reported, in that
/// order; without a popup there is nothing to do.
pub proof fn law_repainting_closes_the_flyouts_and_draws(s: Stack)
    requires
        s.flyouts.len() <= usize::MAX,
    ensures
        ({
            let effects = crate::session::repaint_effects(s);
            let noted = Stack { flyouts: Seq::empty(), ..s };
            &&& s.popup is None ==> effects.len() == 0
            &&& s.popup is Some ==> {
                &&& closes_what_is_gone(s, noted, effects)
                &&& effects.len() == s.flyouts.len() + 2
                &&& effects[s.flyouts.len() as int] == Effect::Redraw(0)
                &&& effects.last() == Effect::Sync
            }
        }),
{
    let effects = crate::session::repaint_effects(s);
    let noted = Stack { flyouts: Seq::empty(), ..s };
    if s.popup is Some {
        let rest = seq![Effect::Redraw(0), Effect::Sync];
        let closing = crate::session::closes(s.flyouts.len() as int, 0);
        assert(effects =~= Seq::<Effect>::empty() + closing + rest);
        lemma_closing_among_others(s, noted, Seq::empty(), rest, effects);
    }
}

/// Dismissing closes the flyouts before the popup, the deepest first, leaves nothing open, and keeps
/// the menu for the next time.
pub proof fn law_dismissing_goes_from_the_deepest_up(s: Stack)
    requires
        s.wf(),
        s.flyouts.len() <= usize::MAX,
    ensures
        ({
            let effects = crate::session::close_effects(s);
            let after = crate::session::closed(s);
            &&& after.popup is None && after.flyouts.len() == 0 && after.menu == s.menu
            &&& effects.len() == s.flyouts.len() + if s.popup is Some {
                1int
            } else {
                0
            }
            &&& forall|k: int|
                0 <= k < effects.len() ==> #[trigger] effects[k] == Effect::Close(
                    (s.flyouts.len() - k) as usize,
                )
        }),
{
}

/// Levels and windows match: the popup is level zero, each flyout one level below the window it
/// opened from, and no two windows share a level.
pub proof fn law_each_level_has_one_window(a: WindowKind, b: WindowKind, depth: usize)
    ensures
        crate::session::level_of(WindowKind::Popup) == 0,
        crate::session::level_of(WindowKind::Flyout(0)) == crate::session::level_of(
            WindowKind::Popup,
        ) + 1,
        depth < usize::MAX ==> crate::session::level_of(WindowKind::Flyout((depth + 1) as usize))
            == crate::session::level_of(WindowKind::Flyout(depth)) + 1,
        crate::session::level_of(WindowKind::Flyout(depth)) == depth + 1,
        crate::session::level_of(a) == crate::session::level_of(b) ==> a == b,
{
}

} // verus!
