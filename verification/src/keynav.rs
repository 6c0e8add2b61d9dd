//! Keyboard navigation over the menu and its open flyouts.
use vstd::prelude::*;

use crate::menu::{descend, Item, Menu, MenuId, Row};
use crate::text::ascii_lower;

verus! {

/// A key that a menu reacts to, independent of the windowing system.
#[derive(Debug, Clone, Copy, PartialEq, Eq, Structural)]
pub enum NavKey {
    Up,
    Down,
    Left,
    Right,
    Home,
    End,
    Activate,
    Escape,
    /// A printable character, for type-ahead.
    Char(char),
}

/// The selection inside one open flyout.
#[derive(Debug, Clone, Copy, PartialEq, Eq, Structural)]
pub struct FlyoutFocus {
    /// The row of the level above that the flyout opened from.
    pub parent: usize,
    /// The selected row of the flyout, if any.
    pub child: Option<usize>,
}

/// The selection in every open level.
#[derive(Debug)]
pub struct MenuFocus {
    /// The selected row of the top-level menu.
    pub top: Option<usize>,
    /// One entry for each open flyout, shallowest first.
    pub flyout: Vec<FlyoutFocus>,
}

/// What a key asks the surface to do.
#[derive(Debug, PartialEq, Eq)]
pub enum NavAction {
    /// Nothing; the key has no meaning here.
    Ignore,
    /// The selection moved.
    Redraw,
    /// Open the submenu of this row of the deepest open level.
    OpenFlyout(usize),
    /// Close the deepest flyout.
    CloseFlyout,
    /// Activate this row.
    Activate(MenuId),
    /// Dismiss the whole menu.
    CloseAll,
}

/// The rows of the open flyouts, shallowest first.
pub open spec fn parents_of(flyout: Seq<FlyoutFocus>) -> Seq<usize> {
    flyout.map_values(|f: FlyoutFocus| f.parent)
}

/// The keyboard can land on this entry.
pub open spec fn selectable(item: Item) -> bool {
    match item {
        Item::Row(row) => row.enabled && !row.id.inert(),
        Item::Submenu { label, menu: _ } => label.enabled,
        _ => false,
    }
}

/// The text of an entry begins with `c`, whatever the case.
pub open spec fn begins_with(item: Item, c: char) -> bool {
    match item {
        Item::Row(row) => initial_is(row.label@, c),
        Item::Submenu { label, menu: _ } => initial_is(label.label@, c),
        _ => false,
    }
}

/// `text` begins with `c`, whatever the case.
pub open spec fn initial_is(text: Seq<char>, c: char) -> bool {
    text.len() > 0 && crate::text::lower(text[0]) == crate::text::lower(c)
}

/// Row `i` of `menu` is one a search may land on: selectable and, where a character is typed,
/// beginning with it.
pub open spec fn lands(menu: Menu, i: int, typed: Option<char>) -> bool {
    &&& 0 <= i < menu.items@.len()
    &&& selectable(menu.items@[i])
    &&& typed matches Some(c) ==> begins_with(menu.items@[i], c)
}

/// The first row at or after `from`, and before `upto`, that a search lands on.
pub open spec fn first_from(menu: Menu, typed: Option<char>, from: int, upto: int) -> Option<usize>
    decreases upto - from,
{
    if from >= upto {
        None
    } else if lands(menu, from, typed) {
        Some(from as usize)
    } else {
        first_from(menu, typed, from + 1, upto)
    }
}

/// The last row before `upto` that a search lands on.
pub open spec fn last_before(menu: Menu, typed: Option<char>, upto: int) -> Option<usize>
    decreases upto,
{
    if upto <= 0 {
        None
    } else if lands(menu, upto - 1, typed) {
        Some((upto - 1) as usize)
    } else {
        last_before(menu, typed, upto - 1)
    }
}

/// The row after the selection that a search lands on, beginning again at the top where none
/// follows.
pub open spec fn following(menu: Menu, typed: Option<char>, selection: Option<usize>) -> Option<
    usize,
> {
    let n = menu.items@.len() as int;
    let from = match selection {
        Some(i) => i + 1,
        None => 0,
    };
    match first_from(menu, typed, from, n) {
        Some(i) => Some(i),
        None => first_from(menu, typed, 0, n),
    }
}

/// The row before the selection that a search lands on, beginning again at the bottom where none
/// precedes.
pub open spec fn preceding(menu: Menu, selection: Option<usize>) -> Option<usize> {
    let n = menu.items@.len() as int;
    let upto = match selection {
        Some(i) => if i < n {
            i as int
        } else {
            n
        },
        None => 0,
    };
    match last_before(menu, None, upto) {
        Some(i) => Some(i),
        None => last_before(menu, None, n),
    }
}

/// A forward search returns a row it may land on, and passes none over.
pub proof fn law_first_is_the_first(menu: Menu, typed: Option<char>, from: int, upto: int)
    requires
        0 <= from,
        upto <= menu.items@.len(),
        menu.items@.len() <= usize::MAX,
    ensures
        match first_from(menu, typed, from, upto) {
            Some(i) => {
                &&& from <= i < upto
                &&& lands(menu, i as int, typed)
                &&& forall|k: int| from <= k < i ==> !#[trigger] lands(menu, k, typed)
            },
            None => forall|k: int| from <= k < upto ==> !#[trigger] lands(menu, k, typed),
        },
    decreases upto - from,
{
    if from < upto && !lands(menu, from, typed) {
        law_first_is_the_first(menu, typed, from + 1, upto);
    }
}

/// A backward search returns a row it may land on, and passes none over.
pub proof fn law_last_is_the_last(menu: Menu, typed: Option<char>, upto: int)
    requires
        upto <= menu.items@.len(),
        menu.items@.len() <= usize::MAX,
    ensures
        match last_before(menu, typed, upto) {
            Some(i) => {
                &&& 0 <= i < upto
                &&& lands(menu, i as int, typed)
                &&& forall|k: int| i < k < upto ==> !#[trigger] lands(menu, k, typed)
            },
            None => forall|k: int| 0 <= k < upto ==> !#[trigger] lands(menu, k, typed),
        },
    decreases upto,
{
    if upto > 0 && !lands(menu, upto - 1, typed) {
        law_last_is_the_last(menu, typed, upto - 1);
    }
}

/// The arrow keys reach some row exactly where the menu has one to reach, and only such rows.
pub proof fn law_arrows_land_on_selectable_rows(menu: Menu, selection: Option<usize>)
    requires
        menu.items@.len() <= usize::MAX,
    ensures
        following(menu, None, selection) is Some <==> exists|k: int| #[trigger]
            lands(menu, k, None),
        preceding(menu, selection) is Some <==> exists|k: int| #[trigger] lands(menu, k, None),
        following(menu, None, selection) matches Some(i) ==> lands(menu, i as int, None),
        preceding(menu, selection) matches Some(i) ==> lands(menu, i as int, None),
{
    let n = menu.items@.len() as int;
    let from = match selection {
        Some(i) => i + 1,
        None => 0int,
    };
    let upto = match selection {
        Some(i) => if i < n {
            i as int
        } else {
            n
        },
        None => 0int,
    };
    law_first_is_the_first(menu, None, from, n);
    law_first_is_the_first(menu, None, 0, n);
    law_last_is_the_last(menu, None, upto);
    law_last_is_the_last(menu, None, n);
}

/// The selection in the deepest open level.
pub open spec fn deepest_selection(top: Option<usize>, flyout: Seq<FlyoutFocus>) -> Option<usize> {
    if flyout.len() == 0 {
        top
    } else {
        flyout.last().child
    }
}

/// The flyouts with another selection in the deepest of them.
pub open spec fn reselected(flyout: Seq<FlyoutFocus>, selection: Option<usize>) -> Seq<FlyoutFocus> {
    flyout.drop_last().push(FlyoutFocus { parent: flyout.last().parent, child: selection })
}

/// The outcome of moving the selection of the deepest level to `found`.
pub open spec fn moved(
    top: Option<usize>,
    flyout: Seq<FlyoutFocus>,
    found: Option<usize>,
) -> (NavAction, Option<usize>, Seq<FlyoutFocus>) {
    if found is None {
        (NavAction::Ignore, top, flyout)
    } else if flyout.len() == 0 {
        (NavAction::Redraw, found, flyout)
    } else {
        (NavAction::Redraw, top, reselected(flyout, found))
    }
}

/// The outcome of entering the selected row of `level`: a submenu opens with its first row
/// selected; nothing else can be entered.
pub open spec fn entered(level: Menu, top: Option<usize>, flyout: Seq<FlyoutFocus>) -> (
    NavAction,
    Option<usize>,
    Seq<FlyoutFocus>,
) {
    match deepest_selection(top, flyout) {
        Some(i) => match crate::menu::submenu_at(level, i as int) {
            Some(child) => (
                NavAction::OpenFlyout(i),
                top,
                flyout.push(
                    FlyoutFocus {
                        parent: i,
                        child: first_from(child, None, 0, child.items@.len() as int),
                    },
                ),
            ),
            None => (NavAction::Ignore, top, flyout),
        },
        None => (NavAction::Ignore, top, flyout),
    }
}

/// The id that activating row `i` of `level` dispatches, if it is a row that dispatches.
pub open spec fn activated(level: Menu, i: int) -> Option<MenuId> {
    if 0 <= i < level.items@.len() {
        match level.items@[i] {
            Item::Row(row) => if row.enabled && !row.id.inert() {
                Some(row.id)
            } else {
                None
            },
            _ => None,
        }
    } else {
        None
    }
}

/// The outcome of a key: the action, and the selection of the top level and of each flyout.
pub open spec fn navigated(
    menu: Menu,
    top: Option<usize>,
    flyout: Seq<FlyoutFocus>,
    key: NavKey,
) -> (NavAction, Option<usize>, Seq<FlyoutFocus>) {
    match crate::menu::descended(menu, parents_of(flyout)) {
        None => (NavAction::Ignore, top, flyout),
        Some(level) => {
            let selection = deepest_selection(top, flyout);
            let n = level.items@.len() as int;
            match key {
                NavKey::Down => moved(top, flyout, following(level, None, selection)),
                NavKey::Up => moved(top, flyout, preceding(level, selection)),
                NavKey::Home => moved(top, flyout, first_from(level, None, 0, n)),
                NavKey::End => moved(top, flyout, last_before(level, None, n)),
                NavKey::Char(c) => moved(top, flyout, following(level, Some(c), selection)),
                NavKey::Right => entered(level, top, flyout),
                NavKey::Left => if flyout.len() == 0 {
                    (NavAction::Ignore, top, flyout)
                } else {
                    (NavAction::CloseFlyout, top, flyout.drop_last())
                },
                NavKey::Activate => match selection {
                    Some(i) => match activated(level, i as int) {
                        Some(id) => (NavAction::Activate(id), top, flyout),
                        None => entered(level, top, flyout),
                    },
                    None => (NavAction::Ignore, top, flyout),
                },
                NavKey::Escape => (NavAction::CloseAll, top, flyout),
            }
        },
    }
}

/// Left undoes Right: after opening a submenu by keyboard, closing it restores the selection.
pub proof fn law_left_undoes_right(menu: Menu, top: Option<usize>, flyout: Seq<FlyoutFocus>)
    requires
        navigated(menu, top, flyout, NavKey::Right).0 is OpenFlyout,
    ensures
        ({
            let (_, top2, flyout2) = navigated(menu, top, flyout, NavKey::Right);
            navigated(menu, top2, flyout2, NavKey::Left) == (NavAction::CloseFlyout, top, flyout)
        }),
{
    let (action, top2, flyout2) = navigated(menu, top, flyout, NavKey::Right);
    assert(parents_of(flyout2).drop_last() =~= parents_of(flyout));
    assert(parents_of(flyout2).last() == flyout2.last().parent);
    assert(crate::menu::descended(menu, parents_of(flyout2)) is Some);
    assert(flyout2.drop_last() =~= flyout);
}

/// A key never leaves the menu: where the open flyouts resolve, they resolve after the key too.
pub proof fn law_keys_keep_the_stack_resolved(
    menu: Menu,
    top: Option<usize>,
    flyout: Seq<FlyoutFocus>,
    key: NavKey,
)
    requires
        crate::menu::descended(menu, parents_of(flyout)) is Some,
    ensures
        crate::menu::descended(menu, parents_of(navigated(menu, top, flyout, key).2)) is Some,
{
    let after = navigated(menu, top, flyout, key).2;
    if flyout.len() > 0 {
        assert(parents_of(flyout.drop_last()) =~= parents_of(flyout).drop_last());
        assert forall|sel: Option<usize>| parents_of(#[trigger] reselected(flyout, sel))
            =~= parents_of(flyout) by {}
    }
    if after.len() == flyout.len() + 1 {
        assert(parents_of(after).drop_last() =~= parents_of(flyout));
        assert(parents_of(after).last() == after.last().parent);
    }
}

/// Whether the keyboard can land on this entry.
fn is_selectable(item: &Item) -> (r: bool)
    ensures
        r == selectable(*item),
{
    match item {
        Item::Row(row) => row.enabled && !row.id.is_none(),
        Item::Submenu { label, menu: _ } => label.enabled,
        _ => false,
    }
}

fn row_begins_with(row: &Row, c: char) -> (r: bool)
    ensures
        r == initial_is(row.label@, c),
{
    let text: &str = row.label.as_str();
    if text.is_empty() {
        false
    } else {
        ascii_lower(text.get_char(0)) == ascii_lower(c)
    }
}

/// Whether the text of the entry begins with `c`, whatever the case.
fn item_begins_with(item: &Item, c: char) -> (r: bool)
    ensures
        r == begins_with(*item, c),
{
    match item {
        Item::Row(row) => row_begins_with(row, c),
        Item::Submenu { label, menu: _ } => row_begins_with(label, c),
        _ => false,
    }
}

fn is_landing(menu: &Menu, i: usize, typed: Option<char>) -> (r: bool)
    ensures
        r == lands(*menu, i as int, typed),
{
    if i >= menu.items.len() {
        return false;
    }
    match typed {
        Some(c) => is_selectable(&menu.items[i]) && item_begins_with(&menu.items[i], c),
        None => is_selectable(&menu.items[i]),
    }
}

/// The first row at or after `from` that a search lands on.
pub fn find_first(menu: &Menu, typed: Option<char>, from: usize) -> (r: Option<usize>)
    ensures
        r == first_from(*menu, typed, from as int, menu.items@.len() as int),
{
    let n: usize = menu.items.len();
    let mut i: usize = from;
    while i < n
        invariant
            n == menu.items@.len(),
            from <= i,
            first_from(*menu, typed, from as int, n as int) == first_from(
                *menu,
                typed,
                i as int,
                n as int,
            ),
        decreases n - i,
    {
        if is_landing(menu, i, typed) {
            return Some(i);
        }
        i = i + 1;
    }
    None
}

/// The last row before `upto` that the keyboard can land on.
pub fn find_last(menu: &Menu, upto: usize) -> (r: Option<usize>)
    ensures
        r == last_before(*menu, None, upto as int),
{
    let mut i: usize = upto;
    while i > 0
        invariant
            i <= upto,
            last_before(*menu, None, upto as int) == last_before(*menu, None, i as int),
        decreases i,
    {
        i = i - 1;
        if is_landing(menu, i, None) {
            return Some(i);
        }
    }
    None
}

fn find_following(menu: &Menu, typed: Option<char>, selection: Option<usize>) -> (r: Option<usize>)
    ensures
        r == following(*menu, typed, selection),
{
    let n: usize = menu.items.len();
    let from: usize = match selection {
        Some(i) => {
            if i < n {
                i + 1
            } else {
                n
            }
        },
        None => 0,
    };
    match find_first(menu, typed, from) {
        Some(i) => Some(i),
        None => find_first(menu, typed, 0),
    }
}

fn find_preceding(menu: &Menu, selection: Option<usize>) -> (r: Option<usize>)
    ensures
        r == preceding(*menu, selection),
{
    let n: usize = menu.items.len();
    let upto: usize = match selection {
        Some(i) => {
            if i < n {
                i
            } else {
                n
            }
        },
        None => 0,
    };
    match find_last(menu, upto) {
        Some(i) => Some(i),
        None => find_last(menu, n),
    }
}

impl MenuFocus {
    /// The rows of the open flyouts, shallowest first.
    pub fn parents(&self) -> (r: Vec<usize>)
        ensures
            r@ == parents_of(self.flyout@),
    {
        let mut r: Vec<usize> = Vec::new();
        let mut k: usize = 0;
        while k < self.flyout.len()
            invariant
                k <= self.flyout@.len(),
                r@ == parents_of(self.flyout@).take(k as int),
            decreases self.flyout@.len() - k,
        {
            r.push(self.flyout[k].parent);
            assert(r@ =~= parents_of(self.flyout@).take(k + 1));
            k = k + 1;
        }
        assert(r@ =~= parents_of(self.flyout@));
        r
    }

    /// The selection in the deepest open level.
    pub fn selection(&self) -> (r: Option<usize>)
        ensures
            r == deepest_selection(self.top, self.flyout@),
    {
        let n: usize = self.flyout.len();
        if n == 0 {
            self.top
        } else {
            self.flyout[n - 1].child
        }
    }

    /// The paths of the submenu rows whose flyouts are open, which assistive technology reports as
    /// expanded: one for each level of the stack.
    pub fn expanded_paths(&self) -> (r: Vec<Vec<usize>>)
        ensures
            r@.len() == self.flyout@.len(),
            forall|k: int|
                0 <= k < r@.len() ==> (#[trigger] r@[k])@ == parents_of(self.flyout@).take(k + 1),
    {
        let parents: Vec<usize> = self.parents();
        let mut r: Vec<Vec<usize>> = Vec::new();
        let mut k: usize = 0;
        while k < parents.len()
            invariant
                parents@ == parents_of(self.flyout@),
                k <= parents@.len(),
                r@.len() == k,
                forall|j: int| 0 <= j < k ==> (#[trigger] r@[j])@ == parents@.take(j + 1),
            decreases parents@.len() - k,
        {
            let mut path: Vec<usize> = Vec::new();
            let mut i: usize = 0;
            let n: usize = k + 1;
            while i < n
                invariant
                    n <= parents@.len(),
                    i <= n,
                    path@ == parents@.take(i as int),
                decreases n - i,
            {
                path.push(parents[i]);
                assert(path@ =~= parents@.take(i + 1));
                i = i + 1;
            }
            r.push(path);
            k = n;
        }
        r
    }
}

/// Where the stack resolves, every expanded path leads to a submenu.
pub proof fn law_expanded_paths_are_submenus(menu: Menu, flyout: Seq<FlyoutFocus>, k: int)
    requires
        crate::menu::descended(menu, parents_of(flyout)) is Some,
        0 <= k < flyout.len(),
    ensures
        crate::menu::descended(menu, parents_of(flyout).take(k + 1)) is Some,
{
    crate::menu::lemma_prefix_resolves(menu, parents_of(flyout), k + 1);
}

/// Moves the selection of the deepest level, where a row was found.
fn move_to(focus: &mut MenuFocus, found: Option<usize>) -> (action: NavAction)
    ensures
        (action, final(focus).top, final(focus).flyout@) == moved(
            old(focus).top,
            old(focus).flyout@,
            found,
        ),
{
    if found.is_none() {
        return NavAction::Ignore;
    }
    match focus.flyout.pop() {
        None => {
            focus.top = found;
        },
        Some(deepest) => {
            focus.flyout.push(FlyoutFocus { parent: deepest.parent, child: found });
        },
    }
    NavAction::Redraw
}

/// Opens the submenu of the selected row, where it has one.
fn enter(level: &Menu, focus: &mut MenuFocus) -> (action: NavAction)
    ensures
        (action, final(focus).top, final(focus).flyout@) == entered(
            *level,
            old(focus).top,
            old(focus).flyout@,
        ),
{
    match focus.selection() {
        Some(i) => match level.submenu_ref(i) {
            Some(child) => {
                let first: Option<usize> = find_first(child, None, 0);
                focus.flyout.push(FlyoutFocus { parent: i, child: first });
                NavAction::OpenFlyout(i)
            },
            None => NavAction::Ignore,
        },
        None => NavAction::Ignore,
    }
}

/// The id that activating row `i` dispatches.
fn activation(level: &Menu, i: usize) -> (r: Option<MenuId>)
    ensures
        r == activated(*level, i as int),
{
    if i >= level.items.len() {
        return None;
    }
    match &level.items[i] {
        Item::Row(row) => {
            if row.enabled && !row.id.is_none() {
                Some(row.id.clone())
            } else {
                None
            }
        },
        _ => None,
    }
}

/// Applies one key to the selection and says what the surface has to do. The keys act on the
/// deepest open level: arrows, Home, End and typed characters move its selection, Right enters a
/// submenu, Left leaves it, Enter and Space activate, Escape dismisses the menu.
pub fn handle_key(menu: &Menu, focus: &mut MenuFocus, key: NavKey) -> (action: NavAction)
    ensures
        (action, final(focus).top, final(focus).flyout@) == navigated(
            *menu,
            old(focus).top,
            old(focus).flyout@,
            key,
        ),
{
    let parents: Vec<usize> = focus.parents();
    let level: &Menu = match descend(menu, parents.as_slice()) {
        Some(level) => level,
        None => {
            return NavAction::Ignore;
        },
    };
    let selection: Option<usize> = focus.selection();
    match key {
        NavKey::Down => move_to(focus, find_following(level, None, selection)),
        NavKey::Up => move_to(focus, find_preceding(level, selection)),
        NavKey::Home => move_to(focus, find_first(level, None, 0)),
        NavKey::End => move_to(focus, find_last(level, level.items.len())),
        NavKey::Char(c) => move_to(focus, find_following(level, Some(c), selection)),
        NavKey::Right => enter(level, focus),
        NavKey::Left => match focus.flyout.pop() {
            Some(_) => NavAction::CloseFlyout,
            None => NavAction::Ignore,
        },
        NavKey::Activate => match selection {
            Some(i) => match activation(level, i) {
                Some(id) => NavAction::Activate(id),
                None => enter(level, focus),
            },
            None => NavAction::Ignore,
        },
        NavKey::Escape => NavAction::CloseAll,
    }
}

/// The keyboard lands on exactly the entries that it can act on: a row that Enter dispatches, which
/// is enabled and has an id, or an enabled submenu row; and for a typed character only on those
/// whose text begins with it in either case.
pub proof fn law_what_the_keyboard_lands_on(menu: Menu, i: int, typed: char)
    requires
        0 <= i < menu.items@.len(),
    ensures
        lands(menu, i, None) <==> activated(menu, i) is Some || (menu.items@[i] matches
            Item::Submenu { label, menu: _ } && label.enabled),
        match menu.items@[i] {
            Item::Row(row) => activated(menu, i) == if row.enabled && row.id.0@.len() > 0 {
                Some(row.id)
            } else {
                None::<MenuId>
            },
            _ => activated(menu, i) is None,
        },
        lands(menu, i, Some(typed)) <==> lands(menu, i, None) && match menu.items@[i] {
            Item::Row(row) => row.label@.len() > 0 && crate::text::lower(row.label@[0])
                == crate::text::lower(typed),
            Item::Submenu { label, menu: _ } => label.label@.len() > 0 && crate::text::lower(
                label.label@[0],
            ) == crate::text::lower(typed),
            _ => false,
        },
        !lands(menu, menu.items@.len() as int, None),
        !lands(menu, -1, None),
{
}

/// No row that a search may land on lies between these two, the ends left out.
pub open spec fn none_between(menu: Menu, typed: Option<char>, after: int, before: int) -> bool {
    forall|k: int| after < k < before ==> !#[trigger] lands(menu, k, typed)
}

/// `j` is the next row after `i` going down that a search may land on, the bottom followed by the
/// top.
pub open spec fn next_down(menu: Menu, typed: Option<char>, i: int, j: int) -> bool {
    &&& lands(menu, j, typed)
    &&& i < j ==> none_between(menu, typed, i, j)
    &&& j <= i ==> none_between(menu, typed, i, menu.items@.len() as int) && none_between(
        menu,
        typed,
        -1,
        j,
    )
}

/// Down and a typed character go to the next row that they may land on, wrapping from the bottom to
/// the top, and Up to the one before, wrapping the other way. Without a selection Down begins above
/// the first row and Up below the last.
pub proof fn law_arrows_go_to_the_next_row(
    menu: Menu,
    typed: Option<char>,
    selection: Option<usize>,
)
    requires
        menu.items@.len() <= usize::MAX,
    ensures
        match following(menu, typed, selection) {
            Some(j) => next_down(
                menu,
                typed,
                match selection {
                    Some(i) => i as int,
                    None => -1,
                },
                j as int,
            ),
            None => none_between(menu, typed, -1, menu.items@.len() as int),
        },
        match preceding(menu, selection) {
            Some(j) => {
                let i = match selection {
                    Some(i) => i as int,
                    None => menu.items@.len() as int,
                };
                &&& lands(menu, j as int, None)
                &&& j < i ==> none_between(menu, None, j as int, i)
                &&& i <= j ==> none_between(menu, None, -1, i) && none_between(
                    menu,
                    None,
                    j as int,
                    menu.items@.len() as int,
                )
            },
            None => none_between(menu, None, -1, menu.items@.len() as int),
        },
{
    let n = menu.items@.len() as int;
    let from = match selection {
        Some(i) => i + 1,
        None => 0int,
    };
    let upto = match selection {
        Some(i) => if i < n {
            i as int
        } else {
            n
        },
        None => 0int,
    };
    law_first_is_the_first(menu, typed, from, n);
    law_first_is_the_first(menu, typed, 0, n);
    law_last_is_the_last(menu, None, upto);
    law_last_is_the_last(menu, None, n);
}

/// Up undoes Down and Down undoes Up, wherever the selection is on a row that the keyboard can land
/// on.
pub proof fn law_up_undoes_down(menu: Menu, i: usize)
    requires
        menu.items@.len() <= usize::MAX,
        lands(menu, i as int, None),
    ensures
        preceding(menu, following(menu, None, Some(i))) == Some(i),
        following(menu, None, preceding(menu, Some(i))) == Some(i),
{
    let n = menu.items@.len() as int;
    law_arrows_go_to_the_next_row(menu, None, Some(i));
    law_arrows_land_on_selectable_rows(menu, Some(i));
    let down = following(menu, None, Some(i));
    let up = preceding(menu, Some(i));
    law_arrows_go_to_the_next_row(menu, None, down);
    law_arrows_land_on_selectable_rows(menu, down);
    law_arrows_go_to_the_next_row(menu, None, up);
    law_arrows_land_on_selectable_rows(menu, up);
}

/// The selection of the levels above the deepest, which no key but Left and Right touches.
pub open spec fn same_above(
    top: Option<usize>,
    flyout: Seq<FlyoutFocus>,
    top2: Option<usize>,
    flyout2: Seq<FlyoutFocus>,
) -> bool {
    &&& flyout2.len() == flyout.len()
    &&& flyout.len() > 0 ==> top2 == top && flyout2.drop_last() == flyout.drop_last()
        && flyout2.last().parent == flyout.last().parent
}

/// The character that a key types.
pub open spec fn typed_by(key: NavKey) -> Option<char> {
    match key {
        NavKey::Char(c) => Some(c),
        _ => None,
    }
}

/// There is a row that a search may land on.
pub open spec fn somewhere_to_land(menu: Menu, typed: Option<char>) -> bool {
    exists|k: int| #[trigger] lands(menu, k, typed)
}

/// The keys that move the selection act on the deepest open level alone: Down and Up go to the next
/// row, Home to the first and End to the last row that the keyboard can land on, a character to the
/// next row that begins with it; where there is none, nothing happens.
pub proof fn law_keys_move_the_deepest_selection(
    menu: Menu,
    top: Option<usize>,
    flyout: Seq<FlyoutFocus>,
    level: Menu,
    key: NavKey,
)
    requires
        crate::menu::descended(menu, parents_of(flyout)) == Some(level),
        level.items@.len() <= usize::MAX,
        key is Down || key is Up || key is Home || key is End || key is Char,
    ensures
        ({
            let (action, top2, flyout2) = navigated(menu, top, flyout, key);
            let n = level.items@.len() as int;
            let before = if flyout.len() > 0 {
                flyout.last().child
            } else {
                top
            };
            let after = if flyout.len() > 0 {
                flyout2.last().child
            } else {
                top2
            };
            let typed = typed_by(key);
            let found = somewhere_to_land(level, typed);
            &&& same_above(top, flyout, top2, flyout2)
            &&& action == if found {
                NavAction::Redraw
            } else {
                NavAction::Ignore
            }
            &&& !found ==> after == before
            &&& found ==> (after matches Some(j) && lands(level, j as int, typed) && match key {
                NavKey::Home => none_between(level, None, -1, j as int),
                NavKey::End => none_between(level, None, j as int, n),
                NavKey::Up => match before {
                    Some(i) => if j < i {
                        none_between(level, None, j as int, i as int)
                    } else {
                        none_between(level, None, -1, i as int) && none_between(
                            level,
                            None,
                            j as int,
                            n,
                        )
                    },
                    None => none_between(level, None, j as int, n),
                },
                _ => next_down(
                    level,
                    typed,
                    match before {
                        Some(i) => i as int,
                        None => -1,
                    },
                    j as int,
                ),
            })
        }),
{
    let n = level.items@.len() as int;
    let selection = deepest_selection(top, flyout);
    let typed = typed_by(key);
    law_arrows_go_to_the_next_row(level, typed, selection);
    law_arrows_go_to_the_next_row(level, None, selection);
    law_first_is_the_first(level, None, 0, n);
    law_last_is_the_last(level, None, n);
    let (action, top2, flyout2) = navigated(menu, top, flyout, key);
    if flyout.len() > 0 && action is Redraw {
        assert(flyout2.drop_last() =~= flyout.drop_last());
    }
    assert forall|k: int| #[trigger] lands(level, k, typed) implies 0 <= k < n by {}
    let result = match key {
        NavKey::Down => following(level, None, selection),
        NavKey::Up => preceding(level, selection),
        NavKey::Home => first_from(level, None, 0, n),
        NavKey::End => last_before(level, None, n),
        _ => following(level, typed, selection),
    };
    assert((action, top2, flyout2) == moved(top, flyout, result));
    match result {
        Some(j) => {
            assert(lands(level, j as int, typed));
            assert(somewhere_to_land(level, typed));
            assert(action == NavAction::Redraw);
        },
        None => {
            assert forall|k: int| !#[trigger] lands(level, k, typed) by {
                if 0 <= k < n {
                    assert(!lands(level, k, typed));
                }
            }
        },
    }
}

/// Right enters the submenu of the selected row, and Enter does where the row does not dispatch:
/// its flyout opens below the others with the first row selected that the keyboard can land on.
/// Left leaves the deepest flyout. Enter on a row that dispatches activates it, Escape dismisses,
/// and neither moves the selection. Everything else does nothing.
pub proof fn law_keys_enter_leave_and_activate(
    menu: Menu,
    top: Option<usize>,
    flyout: Seq<FlyoutFocus>,
    level: Menu,
)
    requires
        crate::menu::descended(menu, parents_of(flyout)) == Some(level),
        forall|i: int|
            0 <= i < level.items@.len() ==> ((#[trigger] level.items@[i]) matches Item::Submenu {
                label: _,
                menu: child,
            } ==> child.items@.len() <= usize::MAX),
    ensures
        ({
            let selection = if flyout.len() > 0 {
                flyout.last().child
            } else {
                top
            };
            let (right, top2, flyout2) = navigated(menu, top, flyout, NavKey::Right);
            let entering = navigated(menu, top, flyout, NavKey::Activate);
            let on_row = selection is Some && selection->0 < level.items@.len();
            let item = level.items@[selection->0 as int];
            &&& on_row && item is Submenu ==> {
                &&& right == NavAction::OpenFlyout(selection->0)
                &&& top2 == top
                &&& flyout2.len() == flyout.len() + 1
                &&& flyout2.drop_last() == flyout
                &&& flyout2.last().parent == selection->0
                &&& match flyout2.last().child {
                    Some(j) => lands(item->menu, j as int, None) && none_between(
                        item->menu,
                        None,
                        -1,
                        j as int,
                    ),
                    None => none_between(item->menu, None, -1, item->menu.items@.len() as int),
                }
                &&& entering == (right, top2, flyout2)
            }
            &&& !(on_row && item is Submenu) ==> (right, top2, flyout2) == (
                NavAction::Ignore,
                top,
                flyout,
            )
            &&& !(on_row && item is Submenu) ==> entering == (
                if on_row && (item matches Item::Row(row) && row.enabled && row.id.0@.len() > 0) {
                    NavAction::Activate(item->Row_0.id)
                } else {
                    NavAction::Ignore
                },
                top,
                flyout,
            )
        }),
        navigated(menu, top, flyout, NavKey::Left) == if flyout.len() > 0 {
            (NavAction::CloseFlyout, top, flyout.drop_last())
        } else {
            (NavAction::Ignore, top, flyout)
        },
        navigated(menu, top, flyout, NavKey::Escape) == (NavAction::CloseAll, top, flyout),
{
    let selection = deepest_selection(top, flyout);
    let flyout2 = navigated(menu, top, flyout, NavKey::Right).2;
    if selection is Some && selection->0 < level.items@.len() {
        match level.items@[selection->0 as int] {
            Item::Submenu { label: _, menu: child } => {
                law_first_is_the_first(child, None, 0, child.items@.len() as int);
                assert(flyout2.drop_last() =~= flyout);
            },
            _ => {},
        }
    }
}

/// Copies of a menu agree on where a forward search lands.
proof fn lemma_alike_first(a: Menu, b: Menu, typed: Option<char>, from: int, upto: int)
    requires
        crate::menu::alike(a, b),
        0 <= from,
        upto <= a.items@.len(),
    ensures
        first_from(a, typed, from, upto) == first_from(b, typed, from, upto),
    decreases upto - from,
{
    if from < upto {
        assert(crate::menu::alike_item(a.items@[from], b.items@[from]));
        lemma_alike_first(a, b, typed, from + 1, upto);
    }
}

/// Copies of a menu agree on where a backward search lands.
proof fn lemma_alike_last(a: Menu, b: Menu, typed: Option<char>, upto: int)
    requires
        crate::menu::alike(a, b),
        upto <= a.items@.len(),
    ensures
        last_before(a, typed, upto) == last_before(b, typed, upto),
    decreases upto,
{
    if upto > 0 {
        assert(crate::menu::alike_item(a.items@[upto - 1], b.items@[upto - 1]));
        lemma_alike_last(a, b, typed, upto - 1);
    }
}

/// The keyboard acts alike on a menu and on a copy of it.
pub proof fn law_copies_navigate_alike(
    a: Menu,
    b: Menu,
    top: Option<usize>,
    flyout: Seq<FlyoutFocus>,
    key: NavKey,
)
    requires
        crate::menu::alike(a, b),
    ensures
        navigated(a, top, flyout, key) == navigated(b, top, flyout, key),
{
    crate::menu::law_alike_menus_agree_at_every_path(a, b, parents_of(flyout));
    match crate::menu::descended(a, parents_of(flyout)) {
        Some(m) => {
            let n = crate::menu::descended(b, parents_of(flyout))->0;
            let len = m.items@.len() as int;
            let selection = deepest_selection(top, flyout);
            let typed = match key {
                NavKey::Char(c) => Some(c),
                _ => None,
            };
            let from = match selection {
                Some(i) => i + 1,
                None => 0int,
            };
            let upto = match selection {
                Some(i) => if i < len {
                    i as int
                } else {
                    len
                },
                None => 0int,
            };
            lemma_alike_first(m, n, typed, from, len);
            lemma_alike_first(m, n, typed, 0, len);
            lemma_alike_first(m, n, None, 0, len);
            lemma_alike_last(m, n, None, upto);
            lemma_alike_last(m, n, None, len);
            if selection is Some && selection->0 < len {
                let i = selection->0 as int;
                assert(crate::menu::alike_item(m.items@[i], n.items@[i]));
                match crate::menu::submenu_at(m, i) {
                    Some(x) => {
                        let y = crate::menu::submenu_at(n, i)->0;
                        lemma_alike_first(x, y, None, 0, x.items@.len() as int);
                    },
                    None => {},
                }
            }
        },
        None => {},
    }
}

} // verus!
