//! What a session has become once the effects it asked for were performed.
//!
//! The host decides whether a window opens and which rows its layout holds. Here that is a
//! parameter: `lays` gives, for the path of a flyout, the rows laid out in it, or nothing where
//! its window did not open.
use vstd::prelude::*;

use crate::keynav::{NavAction, NavKey};
use crate::menu::MenuId;
use crate::session::{AxAction, Effect, PanelState, Stack};

verus! {

/// One effect performed.
pub open spec fn step(s: Stack, effect: Effect, lays: spec_fn(Seq<usize>) -> Option<Seq<usize>>) -> Stack {
    match effect {
        Effect::Open(parent) => if s.may_open(parent) {
            match lays(s.parents().push(parent)) {
                Some(rows) => s.opened(parent, rows),
                None => s,
            }
        } else {
            s
        },
        Effect::Select { level, row } => s.selected(level as int, row),
        _ => s,
    }
}

/// The effects performed in order.
pub open spec fn performed(
    s: Stack,
    effects: Seq<Effect>,
    lays: spec_fn(Seq<usize>) -> Option<Seq<usize>>,
) -> Stack
    decreases effects.len(),
{
    if effects.len() == 0 {
        s
    } else {
        step(performed(s, effects.drop_last(), lays), effects.last(), lays)
    }
}

/// Performing effects one after the other is performing the parts of the list in turn.
pub proof fn law_effects_compose(
    s: Stack,
    first: Seq<Effect>,
    then: Seq<Effect>,
    lays: spec_fn(Seq<usize>) -> Option<Seq<usize>>,
)
    ensures
        performed(s, first + then, lays) == performed(performed(s, first, lays), then, lays),
    decreases then.len(),
{
    if then.len() == 0 {
        assert(first + then =~= first);
    } else {
        law_effects_compose(s, first, then.drop_last(), lays);
        assert((first + then).drop_last() =~= first + then.drop_last());
        assert((first + then).last() == then.last());
    }
}

/// A single effect.
pub proof fn lemma_one_effect(
    s: Stack,
    effect: Effect,
    lays: spec_fn(Seq<usize>) -> Option<Seq<usize>>,
)
    ensures
        performed(s, seq![effect], lays) == step(s, effect, lays),
{
    assert(seq![effect].drop_last() =~= Seq::empty());
    assert(performed(s, Seq::<Effect>::empty(), lays) == s);
}

/// The effect neither opens a flyout nor moves a highlight.
pub open spec fn idle(effect: Effect) -> bool {
    !(effect is Open) && !(effect is Select)
}

/// Idle effects leave the session as it is.
pub proof fn lemma_idle_effects(
    s: Stack,
    effects: Seq<Effect>,
    lays: spec_fn(Seq<usize>) -> Option<Seq<usize>>,
)
    requires
        forall|k: int| 0 <= k < effects.len() ==> idle(#[trigger] effects[k]),
    ensures
        performed(s, effects, lays) == s,
    decreases effects.len(),
{
    if effects.len() > 0 {
        lemma_idle_effects(s, effects.drop_last(), lays);
    }
}

/// Whatever the host does, performing effects keeps a sound session sound.
pub proof fn law_effects_keep_the_session_sound(
    s: Stack,
    effects: Seq<Effect>,
    lays: spec_fn(Seq<usize>) -> Option<Seq<usize>>,
)
    requires
        s.wf(),
    ensures
        performed(s, effects, lays).wf(),
        performed(s, effects, lays).menu == s.menu,
    decreases effects.len(),
{
    if effects.len() > 0 {
        law_effects_keep_the_session_sound(s, effects.drop_last(), lays);
        let before = performed(s, effects.drop_last(), lays);
        let after = performed(s, effects, lays);
        match effects.last() {
            Effect::Open(parent) => {
                if after != before {
                    assert(after.parents() =~= before.parents().push(parent));
                    assert(after.parents().drop_last() =~= before.parents());
                    assert(crate::flyout::levels(before.parents(), before.flyouts.len() as int)
                        =~= before.parents());
                    assert(before.panel(before.flyouts.len() as int) is Some);
                }
            },
            Effect::Select { level, row } => {
                assert(after.parents() =~= before.parents());
                crate::session::lemma_same_parents_wf(before, after);
            },
            _ => {},
        }
    }
}

/// The host opens every window on the way to `target` below level `n`, and lays out in each the
/// row that the next one opens from.
pub open spec fn leads_to(
    lays: spec_fn(Seq<usize>) -> Option<Seq<usize>>,
    target: Seq<usize>,
    n: int,
) -> bool {
    forall|k: int|
        n < k <= target.len() ==> {
            &&& #[trigger] lays(target.take(k)) is Some
            &&& k < target.len() ==> lays(target.take(k))->0.contains(target[k])
        }
}

/// The panel of a level laid out the row that the next level of `target` opens from.
pub open spec fn offers(panel: Option<PanelState>, target: Seq<usize>, level: int) -> bool {
    level < target.len() ==> (panel matches Some(p) && p.rows.contains(target[level]))
}

/// Opening rows one after the other from a shared prefix builds the target.
proof fn lemma_opens_build(
    s: Stack,
    target: Seq<usize>,
    m: int,
    lays: spec_fn(Seq<usize>) -> Option<Seq<usize>>,
)
    requires
        s.popup is Some,
        s.flyouts.len() <= m <= target.len(),
        s.parents() == target.take(s.flyouts.len() as int),
        crate::menu::descended(s.menu, target) is Some,
        offers(s.panel(s.flyouts.len() as int), target, s.flyouts.len() as int),
        leads_to(lays, target, s.flyouts.len() as int),
    ensures
        ({
            let n = s.flyouts.len() as int;
            let after = performed(s, crate::session::opens(target.subrange(n, m)), lays);
            &&& after.menu == s.menu
            &&& after.popup == s.popup
            &&& after.parents() == target.take(m)
            &&& after.flyouts.take(n) == s.flyouts
            &&& offers(after.panel(m), target, m)
            &&& forall|k: int| n <= k < m ==> (#[trigger] after.flyouts[k]).panel.hovered is None
        }),
    decreases m,
{
    let n = s.flyouts.len() as int;
    if m == n {
        assert(crate::session::opens(target.subrange(n, m)) =~= Seq::empty());
        assert(s.flyouts.take(n) =~= s.flyouts);
    } else {
        lemma_opens_build(s, target, m - 1, lays);
        let all = crate::session::opens(target.subrange(n, m));
        assert(all.drop_last() =~= crate::session::opens(target.subrange(n, m - 1)));
        assert(all.last() == Effect::Open(target[m - 1]));
        let before = performed(s, all.drop_last(), lays);
        let parent = target[m - 1];
        assert(before.parents().len() == before.flyouts.len());
        assert(before.flyouts.len() == m - 1);
        assert(crate::flyout::levels(before.parents(), m - 1) =~= target.take(m - 1));
        crate::menu::lemma_prefix_resolves(s.menu, target, m - 1);
        crate::menu::lemma_prefix_resolves(s.menu, target, m);
        assert(target.take(m).drop_last() =~= target.take(m - 1));
        assert(target.take(m).last() == parent);
        assert(before.may_open(parent));
        assert(before.parents().push(parent) =~= target.take(m));
        let after = performed(s, all, lays);
        assert(after == before.opened(parent, lays(target.take(m))->0));
        assert(after.parents() =~= target.take(m));
        assert(after.flyouts.take(n) =~= before.flyouts.take(n));
        assert forall|k: int| n <= k < m implies (#[trigger] after.flyouts[k]).panel.hovered is None by {
            if k < m - 1 {
                assert(after.flyouts[k] == before.flyouts[k]);
            }
        }
    }
}

/// Reconciling reaches its target: once the effects are performed, the open flyouts are the ones
/// asked for, and those that were open already were never touched.
pub proof fn law_reconciling_reaches_the_target(
    s: Stack,
    target: Seq<usize>,
    lays: spec_fn(Seq<usize>) -> Option<Seq<usize>>,
)
    requires
        s.popup is Some,
        crate::menu::descended(s.menu, target) is Some,
        ({
            let n = crate::flyout::common(s.parents(), target) as int;
            offers(s.panel(n), target, n) && leads_to(lays, target, n)
        }),
    ensures
        ({
            let n = crate::flyout::common(s.parents(), target) as int;
            let after = performed(
                crate::session::reconciled(s, target),
                crate::session::reconcile_effects(s, target),
                lays,
            );
            &&& after.parents() == target
            &&& after.flyouts.take(n) == s.flyouts.take(n)
            &&& after.popup == s.popup
            &&& after.menu == s.menu
            &&& forall|k: int|
                n <= k < target.len() ==> (#[trigger] after.flyouts[k]).panel.hovered is None
        }),
{
    let n = crate::flyout::common(s.parents(), target) as int;
    crate::flyout::law_common_is_the_longest(s.parents(), target);
    let kept = crate::session::reconciled(s, target);
    let closing = crate::session::closes(s.flyouts.len() as int, n);
    let opening = crate::session::opens(target.skip(n));
    law_effects_compose(kept, closing, opening, lays);
    lemma_idle_effects(kept, closing, lays);
    assert(s.parents().len() == s.flyouts.len());
    assert(kept.flyouts =~= s.flyouts.take(n));
    assert(kept.parents() =~= s.parents().take(n));
    if n > 0 {
        assert(kept.flyouts[n - 1] == s.flyouts[n - 1]);
    }
    assert(kept.panel(n) == s.panel(n));
    assert(target.skip(n) =~= target.subrange(n, target.len() as int));
    lemma_opens_build(kept, target, target.len() as int, lays);
    assert(target.take(target.len() as int) =~= target);
}

/// The rows of a list from which a flyout does open when they are tried one after the other.
pub open spec fn accepted(
    s: Stack,
    rows: Seq<usize>,
    lays: spec_fn(Seq<usize>) -> Option<Seq<usize>>,
) -> Seq<usize>
    decreases rows.len(),
{
    if rows.len() == 0 {
        Seq::empty()
    } else {
        let earlier = rows.drop_last();
        let before = performed(s, crate::session::opens(earlier), lays);
        if before.may_open(rows.last()) && lays(before.parents().push(rows.last())) is Some {
            accepted(s, earlier, lays).push(rows.last())
        } else {
            accepted(s, earlier, lays)
        }
    }
}

/// Trying rows one after the other adds those that are accepted.
proof fn lemma_opens_add_the_accepted(
    s: Stack,
    rows: Seq<usize>,
    lays: spec_fn(Seq<usize>) -> Option<Seq<usize>>,
)
    ensures
        performed(s, crate::session::opens(rows), lays).parents() == s.parents() + accepted(
            s,
            rows,
            lays,
        ),
    decreases rows.len(),
{
    let all = crate::session::opens(rows);
    if rows.len() == 0 {
        assert(s.parents() + accepted(s, rows, lays) =~= s.parents());
    } else {
        lemma_opens_add_the_accepted(s, rows.drop_last(), lays);
        assert(all.drop_last() =~= crate::session::opens(rows.drop_last()));
        let before = performed(s, all.drop_last(), lays);
        let after = performed(s, all, lays);
        if before.may_open(rows.last()) && lays(before.parents().push(rows.last())) is Some {
            assert(after.parents() =~= before.parents().push(rows.last()));
        }
        assert(after.parents() =~= s.parents() + accepted(s, rows, lays));
    }
}

/// What reconciling leaves open, whatever the host does: the levels that were shared, and those of
/// the others that did open. So the open stack changes exactly where these are not the levels that
/// were open beyond the shared ones.
pub proof fn law_reconciling_keeps_the_shared_and_adds_the_accepted(
    s: Stack,
    target: Seq<usize>,
    lays: spec_fn(Seq<usize>) -> Option<Seq<usize>>,
)
    ensures
        ({
            let n = crate::flyout::common(s.parents(), target) as int;
            let kept = crate::session::reconciled(s, target);
            let added = accepted(kept, target.skip(n), lays);
            let after = performed(kept, crate::session::reconcile_effects(s, target), lays);
            &&& after.parents() == s.parents().take(n) + added
            &&& after.parents() != s.parents() <==> added != s.parents().skip(n)
        }),
{
    let n = crate::flyout::common(s.parents(), target) as int;
    crate::flyout::law_common_is_the_longest(s.parents(), target);
    let kept = crate::session::reconciled(s, target);
    let closing = crate::session::closes(s.flyouts.len() as int, n);
    let opening = crate::session::opens(target.skip(n));
    law_effects_compose(kept, closing, opening, lays);
    lemma_idle_effects(kept, closing, lays);
    lemma_opens_add_the_accepted(kept, target.skip(n), lays);
    assert(s.parents().len() == s.flyouts.len());
    assert(kept.parents() =~= s.parents().take(n));
    let added = accepted(kept, target.skip(n), lays);
    let now = s.parents().take(n) + added;
    assert(s.parents() =~= s.parents().take(n) + s.parents().skip(n));
    assert(now.skip(n) =~= added);
}

/// The open stack changes by a pointer move exactly where a level closed or one opened: the row of
/// a level that opens is never the one that closed.
pub proof fn law_a_motion_changes_the_stack_by_closing_or_opening(
    s: Stack,
    at: Option<(usize, Option<usize>)>,
    lays: spec_fn(Seq<usize>) -> Option<Seq<usize>>,
)
    ensures
        ({
            let (noted, effects) = crate::session::moved_over(s, at);
            let after = performed(noted, effects, lays);
            after.parents() != s.parents() <==> noted.flyouts.len() < s.flyouts.len()
                || after.flyouts.len() > noted.flyouts.len()
        }),
{
    let (noted, effects) = crate::session::moved_over(s, at);
    let after = performed(noted, effects, lays);
    let parents = s.parents();
    let dirty = at matches Some((level, row)) && crate::session::hover_changes(
        s,
        level as int,
        row,
    );
    let s1 = match at {
        Some((level, row)) => if dirty {
            s.selected(level as int, row)
        } else {
            s
        },
        None => s,
    };
    assert(s1.parents() =~= parents);
    assert(parents.len() == s.flyouts.len());
    assert(s1.flyouts.len() == s.flyouts.len());
    let next = match at {
        Some((level, row)) => crate::flyout::hovered_stack(
            parents,
            crate::session::pointed(s, level as int, row),
        ),
        None => Seq::empty(),
    };
    let quiet = crate::session::reconcile_effects(s1, next);
    if dirty {
        assert(effects.drop_last() =~= quiet);
    }
    assert(after == performed(noted, quiet, lays));
    let n = crate::flyout::common(parents, next) as int;
    crate::flyout::law_common_is_the_longest(parents, next);
    law_reconciling_keeps_the_shared_and_adds_the_accepted(s1, next, lays);
    let added = accepted(noted, next.skip(n), lays);
    assert(after.parents().len() == after.flyouts.len());
    assert(noted.flyouts.len() == n);
    assert(after.parents() == parents.take(n) + added);
    assert(after.flyouts.len() == n + added.len());
    assert(next.len() <= n + 1) by {
        if next.len() > 0 {
            let k = next.len() - 1;
            assert(k <= parents.len());
            assert(next.take(k) =~= parents.take(k));
            if n < k {
                assert(next.take(k)[n] == next[n]);
                assert(parents.take(k)[n] == parents[n]);
            }
        }
    }
    let rest = next.skip(n);
    if rest.len() > 0 {
        assert(rest.drop_last() =~= Seq::<usize>::empty());
        assert(accepted(noted, rest.drop_last(), lays) =~= Seq::<usize>::empty());
        assert(added.len() <= 1);
        if added.len() == 1 {
            assert(added[0] == next[n]);
            if n < parents.len() {
                assert(after.parents()[n] == next[n]);
                assert(after.parents() != parents);
            }
        }
    }
    if added.len() == 0 {
        assert(after.parents() =~= parents.take(n));
        if n == parents.len() {
            assert(after.parents() =~= parents);
        }
    }
}

/// The keyboard law: once the effects of a key are performed, the highlights of the panels are
/// the selection that the key asked for, whether or not the focus is reported too.
pub proof fn law_keys_move_the_highlights(
    s: Stack,
    key: NavKey,
    lays: spec_fn(Seq<usize>) -> Option<Seq<usize>>,
)
    requires
        s.wf(),
        s.popup is Some,
        s.flyouts.len() < usize::MAX,
        crate::keynav::navigated(s.menu, s.top(), s.flyout_focus(), key).0 matches
            NavAction::OpenFlyout(i) ==> {
            &&& s.panel(s.flyouts.len() as int)->0.rows.contains(i)
            &&& lays(s.parents().push(i)) is Some
        },
    ensures
        ({
            let (_, top, flyout) = crate::keynav::navigated(
                s.menu,
                s.top(),
                s.flyout_focus(),
                key,
            );
            let (now, effects, dismissed) = crate::session::keyed(s, key);
            let after = performed(now, effects, lays);
            !dismissed ==> after.top() == top && after.flyout_focus() == flyout
        }),
        ({
            let (silent, quiet, dismissed) = crate::session::keyed(s, key);
            let (now, effects, dismissed_too) = crate::session::keyed_aloud(s, key);
            &&& dismissed == dismissed_too
            &&& performed(now, effects, lays) == performed(silent, quiet, lays)
        }),
{
    let (action, top, flyout) = crate::keynav::navigated(s.menu, s.top(), s.flyout_focus(), key);
    let (now, effects, dismissed) = crate::session::keyed(s, key);
    let s1 = s.selected(0, top);
    let depth = s.flyouts.len() as int;
    let focus = s.flyout_focus();
    assert(focus.len() == depth);
    assert(crate::keynav::parents_of(focus) =~= s.parents());
    assert(effects.push(Effect::Sync).drop_last() =~= effects);
    match action {
        NavAction::Ignore => {
            assert(performed(now, effects, lays) == now);
            assert(now.flyout_focus() =~= focus);
        },
        NavAction::Redraw => {
            lemma_idle_effects(now, effects, lays);
            assert(flyout.len() == depth);
            assert forall|k: int| 0 <= k < depth implies flyout[k].parent == focus[k].parent by {}
            assert(now.flyout_focus() =~= flyout);
        },
        NavAction::CloseFlyout => {
            lemma_idle_effects(now, effects, lays);
            assert(flyout =~= focus.drop_last());
            assert(now.flyout_focus() =~= flyout);
        },
        NavAction::OpenFlyout(i) => {
            assert(flyout.len() == depth + 1);
            assert(flyout.drop_last() =~= focus);
            let open = seq![Effect::Open(i)];
            let select = seq![
                Effect::Select { level: (depth + 1) as usize, row: flyout[depth].child },
            ];
            let repaint = seq![Effect::RedrawAll];
            assert(effects =~= open + select + repaint);
            assert(now.flyouts =~= s.flyouts);
            assert(now.parents() =~= s.parents());
            assert(crate::flyout::levels(now.parents(), depth) =~= s.parents());
            assert(now.may_open(i));
            law_effects_compose(now, open + select, repaint, lays);
            law_effects_compose(now, open, select, lays);
            lemma_one_effect(now, open[0], lays);
            let s2 = performed(now, open, lays);
            assert(s2 == now.opened(i, lays(s.parents().push(i))->0));
            lemma_one_effect(s2, select[0], lays);
            let s3 = performed(s2, select, lays);
            assert(s3 == s2.selected(depth + 1, flyout[depth].child));
            lemma_idle_effects(s3, repaint, lays);
            assert(s3.flyout_focus() =~= flyout);
        },
        _ => {},
    }
}

/// The focus law: once a focus action on the row at `path` is performed, the flyouts on the way to
/// it are open, and the deepest of them highlights it.
pub proof fn law_focusing_highlights_the_row(
    s: Stack,
    path: Seq<usize>,
    lays: spec_fn(Seq<usize>) -> Option<Seq<usize>>,
)
    requires
        s.popup is Some,
        0 < path.len() <= usize::MAX,
        crate::menu::descended(s.menu, path.drop_last()) is Some,
        ({
            let n = crate::flyout::common(s.parents(), path.drop_last()) as int;
            offers(s.panel(n), path.drop_last(), n) && leads_to(lays, path.drop_last(), n)
        }),
    ensures
        ({
            let (now, effects, dismissed) = crate::session::acted(s, path, AxAction::Focus);
            let after = performed(now, effects, lays);
            &&& !dismissed
            &&& after.parents() == path.drop_last()
            &&& after.top() == Some(path[0])
            &&& crate::keynav::deepest_selection(after.top(), after.flyout_focus()) == Some(
                path.last(),
            )
        }),
{
    let above = path.drop_last();
    let (now, effects, dismissed) = crate::session::acted(s, path, AxAction::Focus);
    law_reconciling_reaches_the_target(s, above, lays);
    let first = crate::session::reconcile_effects(s, above);
    let last = seq![
        Effect::Select { level: (path.len() - 1) as usize, row: Some(path.last()) },
    ];
    let top = seq![Effect::Select { level: 0, row: Some(path[0]) }];
    let repaint = seq![Effect::RedrawAll, Effect::Sync];
    assert(effects =~= first + last + top + repaint);
    law_effects_compose(now, first + last + top, repaint, lays);
    law_effects_compose(now, first + last, top, lays);
    law_effects_compose(now, first, last, lays);
    let s1 = performed(now, first, lays);
    assert(s1.parents().len() == s1.flyouts.len());
    let s2 = s1.selected(path.len() - 1, Some(path.last()));
    let s3 = s2.selected(0, Some(path[0]));
    lemma_one_effect(s1, last[0], lays);
    lemma_one_effect(s2, top[0], lays);
    lemma_idle_effects(s3, repaint, lays);
    assert(s3.parents() =~= s1.parents());
    if path.len() > 1 {
        assert(s3.flyout_focus().last().child == Some(path.last()));
    }
}

/// Dismissing closes every open window exactly once, and only open windows.
pub proof fn law_dismissing_closes_each_window_once(s: Stack)
    requires
        s.wf(),
        s.flyouts.len() <= usize::MAX,
    ensures
        crate::session::close_effects(s).no_duplicates(),
        forall|level: usize|
            crate::session::close_effects(s).contains(Effect::Close(level)) <==> #[trigger] s.panel(
                level as int,
            ) is Some,
{
    let effects = crate::session::close_effects(s);
    let n = s.flyouts.len() as int;
    assert forall|level: usize|
        effects.contains(Effect::Close(level)) <==> #[trigger] s.panel(level as int) is Some by {
        if level == 0 && s.popup is Some {
            assert(effects[n] == Effect::Close(0));
        }
        if 0 < level <= n {
            assert(effects[n - level] == Effect::Close(level));
        }
    }
}

/// Dismissing twice is dismissing once: the second time there is nothing to close.
pub proof fn law_dismissing_twice_is_dismissing_once(s: Stack)
    ensures
        crate::session::closed(crate::session::closed(s)) == crate::session::closed(s),
        crate::session::close_effects(crate::session::closed(s)) == Seq::<Effect>::empty(),
{
    assert(crate::session::close_effects(crate::session::closed(s)) =~= Seq::<Effect>::empty());
}

/// Resting the pointer on the parent row of an open flyout asks for nothing, whatever is open
/// below it.
pub proof fn law_resting_on_an_open_parent_asks_for_nothing(s: Stack, level: usize)
    requires
        s.wf(),
        level < s.flyouts.len(),
        s.panel(level as int) matches Some(p) && p.hovered == Some(s.flyouts[level as int].parent),
    ensures
        crate::session::moved_over(s, Some((level, Some(s.flyouts[level as int].parent)))) == (
            s,
            Seq::<Effect>::empty(),
        ),
{
    let i = s.flyouts[level as int].parent;
    let parents = s.parents();
    assert(parents.len() == s.flyouts.len());
    assert(parents[level as int] == i);
    crate::menu::lemma_prefix_resolves(s.menu, parents, level as int);
    crate::menu::lemma_prefix_resolves(s.menu, parents, level + 1);
    assert(parents.take(level + 1).drop_last() =~= parents.take(level as int));
    assert(s.is_parent(level as int, i as int));
    crate::flyout::law_common_extremes(parents);
    assert(crate::session::reconcile_effects(s, parents) =~= Seq::<Effect>::empty());
}

/// A row is dispatched alike however it is activated: by a click on it, by the keyboard where it is
/// selected, and by assistive technology.
pub proof fn law_every_activation_dispatches_alike(s: Stack, i: usize, id: MenuId)
    requires
        s.wf(),
        s.popup is Some,
        crate::keynav::deepest_selection(s.top(), s.flyout_focus()) == Some(i),
        s.level_menu(s.flyouts.len() as int) matches Some(level) && crate::keynav::activated(
            level,
            i as int,
        ) == Some(id),
    ensures
        ({
            let depth = s.flyouts.len() as int;
            let outcome = (s, seq![Effect::Dispatch(id)], true);
            &&& crate::session::clicked(s, depth, Some(i), Some(id)) == outcome
            &&& crate::session::keyed(s, NavKey::Activate) == outcome
            &&& crate::session::keyed_aloud(s, NavKey::Activate) == outcome
            &&& crate::session::acted(s, s.parents().push(i), AxAction::Click) == outcome
        }),
{
    let depth = s.flyouts.len() as int;
    let path = s.parents().push(i);
    assert(crate::flyout::levels(s.parents(), depth) =~= s.parents());
    assert(crate::keynav::parents_of(s.flyout_focus()) =~= s.parents());
    assert(path.drop_last() =~= s.parents());
    assert(crate::menu::descended(s.menu, path) is None);
    assert(crate::menu::id_at(s.menu, path) == Some(id));
    assert(s.selected(0, s.top()) =~= s);
}

/// A flyout is opened alike by the pointer resting on its row, by a click on it and by the
/// keyboard where it is selected: whichever it is, the rows that lead to it are the same.
pub proof fn law_every_opening_builds_the_same_stack(
    s: Stack,
    i: usize,
    id: Option<MenuId>,
    lays: spec_fn(Seq<usize>) -> Option<Seq<usize>>,
)
    requires
        s.wf(),
        s.popup is Some,
        s.flyouts.len() < usize::MAX,
        crate::keynav::deepest_selection(s.top(), s.flyout_focus()) == Some(i),
        s.may_open(i),
        lays(s.parents().push(i)) is Some,
    ensures
        ({
            let depth = s.flyouts.len() as usize;
            let (hovered, by_hover) = crate::session::moved_over(s, Some((depth, Some(i))));
            let (clicked, by_click, _) = crate::session::clicked(s, depth as int, Some(i), id);
            let (keyed, by_key, _) = crate::session::keyed(s, NavKey::Right);
            let stack = s.parents().push(i);
            &&& performed(hovered, by_hover, lays).parents() == stack
            &&& performed(clicked, by_click, lays).parents() == stack
            &&& performed(keyed, by_key, lays).parents() == stack
        }),
{
    let depth = s.flyouts.len() as int;
    let stack = s.parents().push(i);
    let open = Effect::Open(i);
    assert(s.parents().len() == depth);
    assert(crate::flyout::levels(s.parents(), depth) =~= s.parents());
    let after = s.opened(i, lays(stack)->0);
    assert(after.parents() =~= stack);
    lemma_one_effect(s, open, lays);

    let (hovered, by_hover) = crate::session::moved_over(s, Some((depth as usize, Some(i))));
    assert(s.panel(depth)->0.hovered == Some(i));
    assert(crate::flyout::hovered_stack(
        s.parents(),
        crate::session::pointed(s, depth, Some(i)),
    ) =~= stack);
    crate::flyout::law_common_is_the_longest(s.parents(), stack);
    assert(crate::flyout::common(s.parents(), stack) == depth);
    assert(by_hover =~= seq![open]);
    assert(hovered == s);

    let (clicked, by_click, _) = crate::session::clicked(s, depth, Some(i), id);
    assert(by_click =~= seq![open]);
    assert(clicked == s);

    law_keys_move_the_highlights(s, NavKey::Right, lays);
    let (keyed, by_key, _) = crate::session::keyed(s, NavKey::Right);
    let last = performed(keyed, by_key, lays);
    assert(crate::keynav::parents_of(s.flyout_focus()) =~= s.parents());
    assert(last.parents() =~= crate::keynav::parents_of(last.flyout_focus()));
    assert(last.parents() =~= stack);
}

} // verus!
