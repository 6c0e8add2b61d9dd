//! The stack of open flyouts: which levels stay open as the pointer moves.
use vstd::prelude::*;

verus! {

/// What the pointer is over, as far as the flyout stack cares. Panel `0` is the popup, panel `k`
/// the flyout at depth `k - 1`.
#[derive(Debug, Clone, Copy, PartialEq, Eq, Structural)]
pub enum HoverTarget {
    /// Outside every panel.
    Outside,
    /// The body of a flyout, between its rows.
    Flyout,
    /// A row that opens a submenu.
    ParentRow { panel: usize, index: usize },
    /// Any other row, or the body of the popup.
    OtherRow { panel: usize },
}

/// The first `n` levels of a stack, or all of it where it is shallower.
pub open spec fn levels(stack: Seq<usize>, n: int) -> Seq<usize> {
    if n < stack.len() {
        stack.take(n)
    } else {
        stack
    }
}

/// The stack that a hover asks for: an open parent row keeps its children, another parent row
/// replaces everything from its level on, a plain row closes the deeper levels, the body of a
/// flyout changes nothing, and leaving every panel closes all.
pub open spec fn hovered_stack(stack: Seq<usize>, target: HoverTarget) -> Seq<usize> {
    match target {
        HoverTarget::Outside => Seq::empty(),
        HoverTarget::Flyout => stack,
        HoverTarget::OtherRow { panel } => levels(stack, panel as int),
        HoverTarget::ParentRow { panel, index } => if panel < stack.len() && stack[panel as int]
            == index {
            stack
        } else {
            levels(stack, panel as int).push(index)
        },
    }
}

/// The leading levels that two stacks share.
pub open spec fn shared(current: Seq<usize>, target: Seq<usize>, n: int) -> bool {
    &&& 0 <= n <= current.len()
    &&& n <= target.len()
    &&& current.take(n) == target.take(n)
}

/// `n` is the length of the longest common prefix.
pub open spec fn longest_shared(current: Seq<usize>, target: Seq<usize>, n: int) -> bool {
    &&& shared(current, target, n)
    &&& n < current.len() && n < target.len() ==> current[n] != target[n]
}

/// The length of the longest common prefix of two stacks.
pub open spec fn common(current: Seq<usize>, target: Seq<usize>) -> nat
    decreases current.len(),
{
    if current.len() == 0 || target.len() == 0 || current[0] != target[0] {
        0
    } else {
        1 + common(current.skip(1), target.skip(1))
    }
}

/// The common prefix is the longest shared one, and no other length is.
pub proof fn law_common_is_the_longest(current: Seq<usize>, target: Seq<usize>)
    ensures
        longest_shared(current, target, common(current, target) as int),
        forall|n: int| #[trigger]
            longest_shared(current, target, n) ==> n == common(current, target),
    decreases current.len(),
{
    if current.len() == 0 || target.len() == 0 || current[0] != target[0] {
        assert(current.take(0) =~= target.take(0));
        assert forall|n: int| #[trigger] longest_shared(current, target, n) implies n == common(
            current,
            target,
        ) by {
            if n > 0 {
                assert(current.take(n)[0] == target.take(n)[0]);
            }
        }
    } else {
        let rest = common(current.skip(1), target.skip(1)) as int;
        law_common_is_the_longest(current.skip(1), target.skip(1));
        assert forall|k: int| 0 <= k < rest + 1 implies current[k] == target[k] by {
            if k > 0 {
                assert(current.skip(1).take(rest)[k - 1] == target.skip(1).take(rest)[k - 1]);
            }
        }
        assert(current.take(rest + 1) =~= target.take(rest + 1));
        assert forall|n: int| #[trigger] longest_shared(current, target, n) implies n == common(
            current,
            target,
        ) by {
            assert(n > 0);
            assert forall|k: int| 0 <= k < n - 1 implies current.skip(1)[k] == target.skip(1)[k] by {
                assert(current.take(n)[k + 1] == target.take(n)[k + 1]);
            }
            assert(current.skip(1).take(n - 1) =~= target.skip(1).take(n - 1));
            assert(longest_shared(current.skip(1), target.skip(1), n - 1));
        }
    }
}

/// The common prefix does not depend on which stack is the open one.
pub proof fn law_common_is_symmetric(a: Seq<usize>, b: Seq<usize>)
    ensures
        common(a, b) == common(b, a),
    decreases a.len(),
{
    if a.len() > 0 && b.len() > 0 && a[0] == b[0] {
        law_common_is_symmetric(a.skip(1), b.skip(1));
    }
}

/// Asking for the open stack keeps all of it; asking for none keeps none.
pub proof fn law_common_extremes(stack: Seq<usize>)
    ensures
        common(stack, stack) == stack.len(),
        common(stack, Seq::empty()) == 0,
        common(Seq::empty(), stack) == 0,
    decreases stack.len(),
{
    if stack.len() > 0 {
        law_common_extremes(stack.skip(1));
    }
}

/// Hovering the parent row of an open flyout again asks for the very stack that is open, so no
/// flyout flickers.
pub proof fn law_rehovering_an_open_parent_keeps_the_stack(stack: Seq<usize>, panel: usize)
    requires
        panel < stack.len(),
    ensures
        hovered_stack(
            stack,
            HoverTarget::ParentRow { panel, index: stack[panel as int] },
        ) == stack,
{
}

/// A hover is settled at once: hovering the same place again changes nothing.
pub proof fn law_hover_settles(stack: Seq<usize>, target: HoverTarget)
    requires
        target matches HoverTarget::ParentRow { panel, index: _ } ==> panel <= stack.len(),
    ensures
        hovered_stack(hovered_stack(stack, target), target) == hovered_stack(stack, target),
{
    match target {
        HoverTarget::OtherRow { panel } => {
            assert(hovered_stack(hovered_stack(stack, target), target) =~= hovered_stack(
                stack,
                target,
            ));
        },
        _ => {},
    }
}

/// A hover never closes a level above the panel the pointer is in.
pub proof fn law_hover_keeps_the_levels_above(stack: Seq<usize>, panel: usize, index: usize)
    requires
        panel <= stack.len(),
    ensures
        levels(hovered_stack(stack, HoverTarget::ParentRow { panel, index }), panel as int)
            == stack.take(panel as int),
        levels(hovered_stack(stack, HoverTarget::OtherRow { panel }), panel as int) == stack.take(
            panel as int,
        ),
{
    assert(levels(hovered_stack(stack, HoverTarget::ParentRow { panel, index }), panel as int)
        =~= stack.take(panel as int));
    assert(levels(hovered_stack(stack, HoverTarget::OtherRow { panel }), panel as int)
        =~= stack.take(panel as int));
}

/// Copies the first `n` levels of a stack, or all of them.
fn take_levels(stack: &[usize], n: usize) -> (r: Vec<usize>)
    ensures
        r@ == levels(stack@, n as int),
{
    let mut r: Vec<usize> = Vec::new();
    let mut k: usize = 0;
    while k < stack.len() && k < n
        invariant
            k <= stack@.len(),
            k <= n,
            r@ == stack@.take(k as int),
        decreases stack@.len() - k,
    {
        r.push(stack[k]);
        k = k + 1;
    }
    assert(r@ =~= levels(stack@, n as int));
    r
}

/// The stack of parent rows that should be open once the pointer is over `target`.
pub fn next_flyout(stack: &[usize], target: HoverTarget) -> (r: Vec<usize>)
    ensures
        r@ == hovered_stack(stack@, target),
{
    match target {
        HoverTarget::Outside => Vec::new(),
        HoverTarget::Flyout => take_levels(stack, stack.len()),
        HoverTarget::OtherRow { panel } => take_levels(stack, panel),
        HoverTarget::ParentRow { panel, index } => {
            if panel < stack.len() && stack[panel] == index {
                take_levels(stack, stack.len())
            } else {
                let mut r: Vec<usize> = take_levels(stack, panel);
                r.push(index);
                r
            }
        },
    }
}

/// How many levels of the open stack a switch to `target` keeps.
pub fn common_flyout_prefix(current: &[usize], target: &[usize]) -> (r: usize)
    ensures
        r == common(current@, target@),
        longest_shared(current@, target@, r as int),
{
    let mut n: usize = 0;
    assert(current@.take(0) =~= target@.take(0));
    while n < target.len() && n < current.len() && current[n] == target[n]
        invariant
            shared(current@, target@, n as int),
        decreases target@.len() - n,
    {
        assert(current@.take(n + 1) =~= current@.take(n as int).push(current@[n as int]));
        assert(target@.take(n + 1) =~= target@.take(n as int).push(target@[n as int]));
        n = n + 1;
    }
    proof {
        law_common_is_the_longest(current@, target@);
        assert(longest_shared(current@, target@, n as int));
    }
    n
}

/// A hover asks for what it is over: a submenu row has its flyout at the level below its panel and
/// the levels above as they were, with everything deeper kept only where that flyout is open
/// already; another row ends the stack at its panel; the body of a flyout keeps the stack; outside
/// there is none.
pub proof fn law_a_hover_asks_for_the_row_it_is_on(stack: Seq<usize>, panel: usize, index: usize)
    requires
        panel <= stack.len(),
    ensures
        ({
            let next = hovered_stack(stack, HoverTarget::ParentRow { panel, index });
            let open = panel < stack.len() && stack[panel as int] == index;
            &&& next.len() > panel
            &&& next[panel as int] == index
            &&& forall|k: int| 0 <= k < panel ==> #[trigger] next[k] == stack[k]
            &&& next.len() == if open {
                stack.len() as int
            } else {
                panel + 1
            }
            &&& open ==> next == stack
        }),
        hovered_stack(stack, HoverTarget::OtherRow { panel }) == stack.take(panel as int),
        hovered_stack(stack, HoverTarget::Flyout) == stack,
        hovered_stack(stack, HoverTarget::Outside).len() == 0,
{
    assert(levels(stack, panel as int) =~= stack.take(panel as int));
}

/// The first levels of a stack are a prefix of it, as long as asked for where the stack is.
pub proof fn law_levels_are_a_prefix(stack: Seq<usize>, n: int)
    requires
        0 <= n,
    ensures
        n <= stack.len() ==> levels(stack, n).len() == n,
        n >= stack.len() ==> levels(stack, n) == stack,
        forall|k: int| 0 <= k < levels(stack, n).len() ==> #[trigger] levels(stack, n)[k] == stack[k],
{
    if n == stack.len() {
        assert(levels(stack, n) =~= stack);
    }
}

} // verus!
