//! The menu data model: rows, separators and nested submenus.
use vstd::prelude::*;

verus! {

/// The identity of a row, handed to the click handler when the row is activated.
#[derive(Debug, PartialEq, Eq)]
pub struct MenuId(pub String);

impl Clone for MenuId {
    fn clone(&self) -> (r: Self)
        ensures
            r == *self,
    {
        MenuId(self.0.clone())
    }
}

impl MenuId {
    /// An id that never dispatches.
    pub open spec fn inert(self) -> bool {
        self.0@.len() == 0
    }

    /// The id with the given text.
    pub fn new(id: &str) -> (r: Self)
        ensures
            r.0@ == id@,
    {
        MenuId(id.to_owned())
    }

    /// The id of a row that takes no part in dispatch.
    pub fn none() -> (r: Self)
        ensures
            r.inert(),
    {
        MenuId(String::new())
    }

    /// Whether this id never dispatches.
    pub fn is_none(&self) -> (r: bool)
        ensures
            r == self.inert(),
    {
        self.0.as_str().is_empty()
    }

    /// The text of the id.
    pub fn as_str(&self) -> (r: &str)
        ensures
            r@ == self.0@,
    {
        self.0.as_str()
    }
}

/// A picture beside a row or in the tray.
#[derive(Debug, PartialEq, Eq)]
pub enum Icon {
    /// An encoded PNG file.
    Png(Vec<u8>),
    /// An SVG document in the supported subset.
    Svg(Vec<u8>),
    /// A check mark that the surface draws itself.
    Checkmark,
    /// A named symbol that the host draws.
    Symbol(String),
}

/// One line of a menu.
#[derive(Debug)]
pub struct Row {
    pub id: MenuId,
    /// The text the row reads as, also to assistive technology.
    pub label: String,
    pub leading: Option<Icon>,
    pub enabled: bool,
    /// `None` for a row without a check state.
    pub checked: Option<bool>,
}

/// An entry of a menu.
#[derive(Debug)]
pub enum Item {
    /// A hairline between groups.
    Separator,
    /// A heading over a group.
    SectionHeader(Row),
    /// A custom-drawn block without a text form.
    Content,
    /// An activatable row.
    Row(Row),
    /// A row that opens a nested menu.
    Submenu { label: Row, menu: Menu },
}

/// A list of entries, nesting to any depth through [`Item::Submenu`].
#[derive(Debug)]
pub struct Menu {
    pub items: Vec<Item>,
}

/// The submenu behind row `i` of `menu`, if there is one.
pub open spec fn submenu_at(menu: Menu, i: int) -> Option<Menu> {
    if 0 <= i < menu.items@.len() {
        match menu.items@[i] {
            Item::Submenu { label: _, menu: child } => Some(child),
            _ => None,
        }
    } else {
        None
    }
}

/// The menu reached from `menu` by opening the submenu rows of `path` in turn.
pub open spec fn descended(menu: Menu, path: Seq<usize>) -> Option<Menu>
    decreases path.len(),
{
    if path.len() == 0 {
        Some(menu)
    } else {
        match descended(menu, path.drop_last()) {
            Some(parent) => submenu_at(parent, path.last() as int),
            None => None,
        }
    }
}

/// A path that resolves, resolves at every prefix.
pub proof fn lemma_prefix_resolves(menu: Menu, path: Seq<usize>, k: int)
    requires
        0 <= k <= path.len(),
        descended(menu, path) is Some,
    ensures
        descended(menu, path.take(k)) is Some,
    decreases path.len() - k,
{
    if k == path.len() {
        assert(path.take(k) =~= path);
    } else {
        lemma_prefix_resolves(menu, path, k + 1);
        assert(path.take(k + 1).drop_last() =~= path.take(k));
    }
}

/// Descending along a joined path is descending along its parts one after the other.
pub proof fn law_descend_composes(menu: Menu, first: Seq<usize>, then: Seq<usize>)
    ensures
        descended(menu, first + then) == match descended(menu, first) {
            Some(middle) => descended(middle, then),
            None => None,
        },
    decreases then.len(),
{
    if then.len() == 0 {
        assert(first + then =~= first);
    } else {
        law_descend_composes(menu, first, then.drop_last());
        assert((first + then).drop_last() =~= first + then.drop_last());
        assert((first + then).last() == then.last());
    }
}

impl Row {
    /// An enabled, unlabelled row with the given id.
    pub fn new(id: &str) -> (r: Self)
        ensures
            r.id.0@ == id@,
            r.label@ == Seq::<char>::empty(),
            r.leading is None,
            r.enabled,
            r.checked is None,
    {
        Row { id: MenuId::new(id), label: String::new(), leading: None, enabled: true, checked: None }
    }

    /// The same row with this text.
    pub fn label(self, text: &str) -> (r: Self)
        ensures
            r.label@ == text@,
            r == (Row { label: r.label, ..self }),
    {
        Row {
            id: self.id,
            label: text.to_owned(),
            leading: self.leading,
            enabled: self.enabled,
            checked: self.checked,
        }
    }
}

impl Menu {
    /// An empty menu.
    pub fn new() -> (r: Self)
        ensures
            r.items@ == Seq::<Item>::empty(),
    {
        Menu { items: Vec::new() }
    }

    /// The menu with one more entry at its end.
    pub fn item(self, item: Item) -> (r: Self)
        ensures
            r.items@ == self.items@.push(item),
    {
        let mut items: Vec<Item> = self.items;
        items.push(item);
        Menu { items }
    }

    /// The menu with an activatable row at its end.
    pub fn row(self, row: Row) -> (r: Self)
        ensures
            r.items@ == self.items@.push(Item::Row(row)),
    {
        self.item(Item::Row(row))
    }

    /// The menu with a nested menu at its end.
    pub fn submenu(self, label: Row, menu: Menu) -> (r: Self)
        ensures
            r.items@ == self.items@.push(Item::Submenu { label, menu }),
    {
        self.item(Item::Submenu { label, menu })
    }

    /// The submenu behind row `i`, borrowed; `None` where `i` is no submenu row.
    pub fn submenu_ref(&self, i: usize) -> (r: Option<&Menu>)
        ensures
            r is Some <==> submenu_at(*self, i as int) is Some,
            r matches Some(m) ==> *m == submenu_at(*self, i as int)->0,
    {
        if i >= self.items.len() {
            return None;
        }
        match &self.items[i] {
            Item::Submenu { label: _, menu } => Some(menu),
            _ => None,
        }
    }

    /// Whether row `i` opens a submenu.
    pub fn is_submenu(&self, i: usize) -> (r: bool)
        ensures
            r == (submenu_at(*self, i as int) is Some),
    {
        self.submenu_ref(i).is_some()
    }
}

/// Follows `path` through the submenu rows of `menu`, borrowing the menu it ends at. `None` where
/// some index of the path is out of range or no submenu row.
pub fn descend<'a>(menu: &'a Menu, path: &[usize]) -> (r: Option<&'a Menu>)
    ensures
        r is Some <==> descended(*menu, path@) is Some,
        r matches Some(m) ==> *m == descended(*menu, path@)->0,
{
    let mut here: &'a Menu = menu;
    let mut k: usize = 0;
    while k < path.len()
        invariant
            k <= path@.len(),
            descended(*menu, path@.take(k as int)) == Some(*here),
        decreases path@.len() - k,
    {
        assert(path@.take(k + 1).drop_last() =~= path@.take(k as int));
        match here.submenu_ref(path[k]) {
            Some(child) => {
                here = child;
            },
            None => {
                proof {
                    if descended(*menu, path@) is Some {
                        lemma_prefix_resolves(*menu, path@, k + 1);
                    }
                }
                return None;
            },
        }
        k = k + 1;
    }
    assert(path@.take(k as int) =~= path@);
    Some(here)
}

/// The id of the row at the end of `path`; `None` where the path leads to no activatable row.
pub open spec fn id_at(menu: Menu, path: Seq<usize>) -> Option<MenuId> {
    if path.len() == 0 {
        None
    } else {
        match descended(menu, path.drop_last()) {
            Some(level) => if path.last() < level.items@.len() {
                match level.items@[path.last() as int] {
                    Item::Row(row) => Some(row.id),
                    _ => None,
                }
            } else {
                None
            },
            None => None,
        }
    }
}

/// Whether `path` leads to a submenu row.
pub fn is_submenu_at_path(menu: &Menu, path: &[usize]) -> (r: bool)
    ensures
        r == (path@.len() > 0 && descended(*menu, path@) is Some),
{
    path.len() > 0 && descend(menu, path).is_some()
}

/// The id of the row at the end of `path`.
pub fn menu_id_at_path(menu: &Menu, path: &[usize]) -> (r: Option<MenuId>)
    ensures
        r == id_at(*menu, path@),
{
    let n: usize = path.len();
    if n == 0 {
        return None;
    }
    let above: &[usize] = vstd::slice::slice_subrange(path, 0, n - 1);
    assert(above@ =~= path@.drop_last());
    match descend(menu, above) {
        Some(level) => {
            let last: usize = path[n - 1];
            if last >= level.items.len() {
                return None;
            }
            match &level.items[last] {
                Item::Row(row) => Some(row.id.clone()),
                _ => None,
            }
        },
        None => None,
    }
}

/// No path leads both to a submenu row and to a row with an id.
pub proof fn law_a_path_names_one_thing(menu: Menu, path: Seq<usize>)
    requires
        path.len() > 0,
    ensures
        !(descended(menu, path) is Some && id_at(menu, path) is Some),
{
}

/// Two icons with the same content.
pub open spec fn alike_icon(a: Icon, b: Icon) -> bool {
    match (a, b) {
        (Icon::Png(x), Icon::Png(y)) => x@ == y@,
        (Icon::Svg(x), Icon::Svg(y)) => x@ == y@,
        (Icon::Checkmark, Icon::Checkmark) => true,
        (Icon::Symbol(x), Icon::Symbol(y)) => x@ == y@,
        _ => false,
    }
}

/// Two rows with the same content.
pub open spec fn alike_row(a: Row, b: Row) -> bool {
    &&& a.id == b.id
    &&& a.label@ == b.label@
    &&& match (a.leading, b.leading) {
        (Some(x), Some(y)) => alike_icon(x, y),
        (None, None) => true,
        _ => false,
    }
    &&& a.enabled == b.enabled
    &&& a.checked == b.checked
}

/// Two entries with the same content.
pub open spec fn alike_item(a: Item, b: Item) -> bool
    decreases a,
{
    match (a, b) {
        (Item::Separator, Item::Separator) => true,
        (Item::SectionHeader(x), Item::SectionHeader(y)) => alike_row(x, y),
        (Item::Content, Item::Content) => true,
        (Item::Row(x), Item::Row(y)) => alike_row(x, y),
        (
            Item::Submenu { label: x, menu: m },
            Item::Submenu { label: y, menu: n },
        ) => alike_row(x, y) && alike(m, n),
        _ => false,
    }
}

/// Two menus with the same content, all the way down.
pub open spec fn alike(a: Menu, b: Menu) -> bool
    decreases a,
{
    &&& a.items@.len() == b.items@.len()
    &&& forall|i: int|
        0 <= i < a.items@.len() ==> alike_item(a.items@[i], #[trigger] b.items@[i])
}

/// Menus with the same content have the same submenus and ids at the same paths.
pub proof fn law_alike_menus_agree_at_every_path(a: Menu, b: Menu, path: Seq<usize>)
    requires
        alike(a, b),
    ensures
        match (descended(a, path), descended(b, path)) {
            (Some(m), Some(n)) => alike(m, n),
            (None, None) => true,
            _ => false,
        },
        id_at(a, path) == id_at(b, path),
    decreases path.len(),
{
    if path.len() > 0 {
        law_alike_menus_agree_at_every_path(a, b, path.drop_last());
        match descended(a, path.drop_last()) {
            Some(m) => {
                let n = descended(b, path.drop_last())->0;
                let i = path.last() as int;
                if i < m.items@.len() {
                    assert(alike_item(m.items@[i], n.items@[i]));
                }
            },
            None => {},
        }
    }
}

/// Copies bytes.
pub fn copy_bytes(bytes: &Vec<u8>) -> (r: Vec<u8>)
    ensures
        r@ == bytes@,
{
    let mut r: Vec<u8> = Vec::new();
    let mut k: usize = 0;
    while k < bytes.len()
        invariant
            k <= bytes@.len(),
            r@ == bytes@.take(k as int),
        decreases bytes@.len() - k,
    {
        r.push(bytes[k]);
        assert(r@ =~= bytes@.take(k + 1));
        k = k + 1;
    }
    assert(r@ =~= bytes@);
    r
}

impl Icon {
    /// A copy with the same content.
    pub fn copied(&self) -> (r: Icon)
        ensures
            alike_icon(*self, r),
    {
        match self {
            Icon::Png(bytes) => Icon::Png(copy_bytes(bytes)),
            Icon::Svg(bytes) => Icon::Svg(copy_bytes(bytes)),
            Icon::Checkmark => Icon::Checkmark,
            Icon::Symbol(name) => Icon::Symbol(name.clone()),
        }
    }
}

impl Row {
    /// A copy with the same content.
    pub fn copied(&self) -> (r: Row)
        ensures
            alike_row(*self, r),
    {
        let leading: Option<Icon> = match &self.leading {
            Some(icon) => Some(icon.copied()),
            None => None,
        };
        Row {
            id: self.id.clone(),
            label: self.label.clone(),
            leading,
            enabled: self.enabled,
            checked: self.checked,
        }
    }
}

fn copy_item(item: &Item) -> (r: Item)
    ensures
        alike_item(*item, r),
    decreases *item,
{
    match item {
        Item::Separator => Item::Separator,
        Item::SectionHeader(row) => Item::SectionHeader(row.copied()),
        Item::Content => Item::Content,
        Item::Row(row) => Item::Row(row.copied()),
        Item::Submenu { label, menu } => Item::Submenu {
            label: label.copied(),
            menu: copy_menu(menu),
        },
    }
}

/// A copy of a menu with the same content, all the way down.
pub fn copy_menu(menu: &Menu) -> (r: Menu)
    ensures
        alike(*menu, r),
    decreases *menu,
{
    let mut items: Vec<Item> = Vec::new();
    let mut k: usize = 0;
    while k < menu.items.len()
        invariant
            k <= menu.items@.len(),
            items@.len() == k,
            forall|i: int| 0 <= i < k ==> alike_item(menu.items@[i], #[trigger] items@[i]),
        decreases menu.items@.len() - k,
    {
        items.push(copy_item(&menu.items[k]));
        k = k + 1;
    }
    Menu { items }
}

/// A path leads one level down for each of its rows: an empty path to the menu itself, and a path
/// with one more row to the submenu of that row, where it is a submenu row of the menu that the
/// path led to before.
pub proof fn law_a_path_goes_down_row_by_row(menu: Menu, path: Seq<usize>, i: usize)
    ensures
        descended(menu, Seq::empty()) == Some(menu),
        descended(menu, path) is None ==> descended(menu, path.push(i)) is None && id_at(
            menu,
            path.push(i),
        ) is None,
        descended(menu, path) matches Some(level) ==> {
            &&& i >= level.items@.len() ==> descended(menu, path.push(i)) is None && id_at(
                menu,
                path.push(i),
            ) is None
            &&& i < level.items@.len() ==> match level.items@[i as int] {
                Item::Submenu { label: _, menu: child } => descended(menu, path.push(i)) == Some(
                    child,
                ) && id_at(menu, path.push(i)) is None,
                Item::Row(row) => descended(menu, path.push(i)) is None && id_at(
                    menu,
                    path.push(i),
                ) == Some(row.id),
                _ => descended(menu, path.push(i)) is None && id_at(menu, path.push(i)) is None,
            }
        },
{
    assert(path.push(i).drop_last() =~= path);
}

/// A copy reads as the menu it was made from: entry for entry the same kind, text, picture, state
/// and id.
pub proof fn law_a_copy_reads_the_same(a: Menu, b: Menu, i: int)
    requires
        alike(a, b),
        0 <= i < a.items@.len(),
    ensures
        a.items@.len() == b.items@.len(),
        match a.items@[i] {
            Item::Separator => b.items@[i] is Separator,
            Item::Content => b.items@[i] is Content,
            Item::SectionHeader(x) => b.items@[i] matches Item::SectionHeader(y) && same_row(x, y),
            Item::Row(x) => b.items@[i] matches Item::Row(y) && same_row(x, y),
            Item::Submenu { label: x, menu: m } => b.items@[i] matches Item::Submenu {
                label: y,
                menu: n,
            } && same_row(x, y) && alike(m, n),
        },
{
    assert(alike_item(a.items@[i], b.items@[i]));
}

/// The rows show the same text and picture, are enabled and checked alike, and have the same id.
pub open spec fn same_row(x: Row, y: Row) -> bool {
    &&& x.id.0@ == y.id.0@
    &&& x.label@ == y.label@
    &&& x.enabled == y.enabled
    &&& x.checked == y.checked
    &&& x.leading is Some <==> y.leading is Some
    &&& x.leading matches Some(Icon::Png(p)) ==> (y.leading matches Some(Icon::Png(q)) && p@ == q@)
    &&& x.leading matches Some(Icon::Svg(p)) ==> (y.leading matches Some(Icon::Svg(q)) && p@ == q@)
    &&& x.leading matches Some(Icon::Symbol(p)) ==> (y.leading matches Some(Icon::Symbol(q)) && p@
        == q@)
    &&& x.leading == Some(Icon::Checkmark) ==> y.leading == Some(Icon::Checkmark)
}

} // verus!
