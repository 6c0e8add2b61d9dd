//! The StatusNotifierItem bridge: the tray item and the native menu it exports.
//!
//! The host draws a native menu in its own process, from labels, icons and states alone.
use vstd::prelude::*;

use crate::linux::LinuxMenuPresenter;
use crate::menu::{copy_bytes, Icon, Item, Menu, MenuId, Row};
use crate::tray::{TrayCommand, TrayState};

verus! {

/// The picture of a native menu entry, which the host takes as a PNG file.
#[derive(Debug)]
pub enum NativeIcon {
    Absent,
    /// A PNG file, as it is.
    Png(Vec<u8>),
    /// An SVG document to be turned into a PNG file; without a picture where that fails.
    Svg(Vec<u8>),
}

/// An entry of a native menu.
#[derive(Debug)]
pub enum NativeItem {
    Separator,
    /// A plain entry. Activating it dispatches `id`, where it has one.
    Standard { label: String, enabled: bool, icon: NativeIcon, id: Option<MenuId> },
    /// An entry with a check mark, dispatched likewise.
    Checkmark { label: String, enabled: bool, checked: bool, icon: NativeIcon, id: Option<MenuId> },
    SubMenu { label: String, enabled: bool, icon: NativeIcon, items: Vec<NativeItem> },
}

/// The picture of an entry is the leading icon of its row, where that has bytes.
pub open spec fn depicts(icon: NativeIcon, leading: Option<Icon>) -> bool {
    match leading {
        Some(Icon::Png(bytes)) => icon matches NativeIcon::Png(b) && b@ == bytes@,
        Some(Icon::Svg(bytes)) => icon matches NativeIcon::Svg(b) && b@ == bytes@,
        _ => icon is Absent,
    }
}

/// A native entry stands for a menu entry: headings and custom content are disabled labels, a row
/// is enabled where it can be dispatched, and a submenu holds the entries of its menu.
pub open spec fn mirrors_item(item: Item, native: NativeItem) -> bool
    decreases item,
{
    match item {
        Item::Separator => native is Separator,
        Item::SectionHeader(row) => {
            &&& native matches NativeItem::Standard { label, enabled, icon, id }
            &&& label@ == row.label@
            &&& !enabled
            &&& depicts(icon, row.leading)
            &&& id is None
        },
        Item::Content => {
            &&& native matches NativeItem::Standard { label, enabled, icon, id }
            &&& label@.len() == 0
            &&& !enabled
            &&& icon is Absent
            &&& id is None
        },
        Item::Row(row) => match row.checked {
            Some(on) => {
                &&& native matches NativeItem::Checkmark { label, enabled, checked, icon, id }
                &&& label@ == row.label@
                &&& enabled == (row.enabled && !row.id.inert())
                &&& checked == on
                &&& depicts(icon, row.leading)
                &&& id == Some(row.id)
            },
            None => {
                &&& native matches NativeItem::Standard { label, enabled, icon, id }
                &&& label@ == row.label@
                &&& enabled == (row.enabled && !row.id.inert())
                &&& depicts(icon, row.leading)
                &&& id == Some(row.id)
            },
        },
        Item::Submenu { label: row, menu } => {
            &&& native matches NativeItem::SubMenu { label, enabled, icon, items }
            &&& label@ == row.label@
            &&& enabled == row.enabled
            &&& depicts(icon, row.leading)
            &&& mirrors(menu, items@)
        },
    }
}

/// The entries of a native menu stand for those of `menu`, one for one and in order.
pub open spec fn mirrors(menu: Menu, native: Seq<NativeItem>) -> bool
    decreases menu,
{
    &&& native.len() == menu.items@.len()
    &&& forall|i: int|
        0 <= i < menu.items@.len() ==> mirrors_item(menu.items@[i], #[trigger] native[i])
}

/// The user can choose this native entry.
pub open spec fn choosable(native: NativeItem) -> bool {
    match native {
        NativeItem::Separator => false,
        NativeItem::Standard { label: _, enabled, icon: _, id: _ } => enabled,
        NativeItem::Checkmark { label: _, enabled, checked: _, icon: _, id: _ } => enabled,
        NativeItem::SubMenu { label: _, enabled, icon: _, items: _ } => enabled,
    }
}

/// The native menu offers exactly the entries that the keyboard can land on in the menu that is
/// drawn here.
pub proof fn law_native_entries_agree_with_the_keyboard(menu: Menu, native: Seq<NativeItem>, i: int)
    requires
        mirrors(menu, native),
        0 <= i < menu.items@.len(),
    ensures
        choosable(native[i]) == crate::keynav::selectable(menu.items@[i]),
{
    assert(mirrors_item(menu.items@[i], native[i]));
}

/// The menu nests as deep natively as it does here: where a path leads to a submenu, the native
/// entries along it lead to the entries that stand for it.
pub open spec fn native_at(native: Seq<NativeItem>, path: Seq<usize>) -> Option<Seq<NativeItem>>
    decreases path.len(),
{
    if path.len() == 0 {
        Some(native)
    } else {
        match native_at(native, path.drop_last()) {
            Some(level) => if path.last() < level.len() {
                match level[path.last() as int] {
                    NativeItem::SubMenu { label: _, enabled: _, icon: _, items } => Some(items@),
                    _ => None,
                }
            } else {
                None
            },
            None => None,
        }
    }
}

/// Every level of the menu has its native twin.
pub proof fn law_native_menu_mirrors_every_level(
    menu: Menu,
    native: Seq<NativeItem>,
    path: Seq<usize>,
)
    requires
        mirrors(menu, native),
    ensures
        match crate::menu::descended(menu, path) {
            Some(level) => native_at(native, path) matches Some(twin) && mirrors(level, twin),
            None => native_at(native, path) is None,
        },
    decreases path.len(),
{
    if path.len() > 0 {
        law_native_menu_mirrors_every_level(menu, native, path.drop_last());
        match crate::menu::descended(menu, path.drop_last()) {
            Some(level) => {
                let twin = native_at(native, path.drop_last())->0;
                let i = path.last() as int;
                if i < level.items@.len() {
                    assert(mirrors_item(level.items@[i], twin[i]));
                }
            },
            None => {},
        }
    }
}

/// The picture for a native entry.
pub fn leading_icon(leading: &Option<Icon>) -> (r: NativeIcon)
    ensures
        depicts(r, *leading),
{
    match leading {
        Some(Icon::Png(bytes)) => NativeIcon::Png(copy_bytes(bytes)),
        Some(Icon::Svg(bytes)) => NativeIcon::Svg(copy_bytes(bytes)),
        Some(Icon::Checkmark) | Some(Icon::Symbol(_)) | None => NativeIcon::Absent,
    }
}

fn row_entry(row: &Row) -> (r: NativeItem)
    ensures
        mirrors_item(Item::Row(*row), r),
{
    let label: String = row.label.clone();
    let icon: NativeIcon = leading_icon(&row.leading);
    let enabled: bool = row.enabled && !row.id.is_none();
    match row.checked {
        Some(checked) => NativeItem::Checkmark {
            label,
            enabled,
            checked,
            icon,
            id: Some(row.id.clone()),
        },
        None => NativeItem::Standard { label, enabled, icon, id: Some(row.id.clone()) },
    }
}

fn build_item(item: &Item) -> (r: NativeItem)
    ensures
        mirrors_item(*item, r),
    decreases *item,
{
    match item {
        Item::Separator => NativeItem::Separator,
        Item::SectionHeader(row) => NativeItem::Standard {
            label: row.label.clone(),
            enabled: false,
            icon: leading_icon(&row.leading),
            id: None,
        },
        Item::Content => NativeItem::Standard {
            label: String::new(),
            enabled: false,
            icon: NativeIcon::Absent,
            id: None,
        },
        Item::Row(row) => row_entry(row),
        Item::Submenu { label, menu } => NativeItem::SubMenu {
            label: label.label.clone(),
            enabled: label.enabled,
            icon: leading_icon(&label.leading),
            items: build_items(menu),
        },
    }
}

/// Builds the native menu for `menu`, with all its submenus.
pub fn build_items(menu: &Menu) -> (r: Vec<NativeItem>)
    ensures
        mirrors(*menu, r@),
    decreases *menu,
{
    let mut r: Vec<NativeItem> = Vec::new();
    let mut k: usize = 0;
    while k < menu.items.len()
        invariant
            k <= menu.items@.len(),
            r@.len() == k,
            forall|i: int| 0 <= i < k ==> mirrors_item(menu.items@[i], #[trigger] r@[i]),
        decreases menu.items@.len() - k,
    {
        r.push(build_item(&menu.items[k]));
        k = k + 1;
    }
    r
}

/// A tray item on the session bus.
#[derive(Debug)]
pub struct SniItem {
    pub tray: TrayState,
    pub menu: Menu,
    pub visible: bool,
    pub presenter: LinuxMenuPresenter,
}

/// What follows from a command to a tray item.
#[derive(Debug, Clone, Copy, PartialEq, Eq, Structural)]
pub enum SniOutcome {
    /// The item changed: export it again.
    Export,
    /// Nothing changed.
    Unchanged,
    /// Answer that there is no anchor rectangle.
    NoAnchor,
}

/// The command changes what the item exports.
pub open spec fn exports(command: TrayCommand) -> bool {
    ||| command is SetMenu
    ||| command is SetIcon
    ||| command is SetTooltip
    ||| command is SetTitle
    ||| command is SetVisible
}

/// Whether a command changes what a tray item exports. The others need not reach it.
pub fn changes_item(command: &TrayCommand) -> (r: bool)
    ensures
        r == exports(*command),
{
    match command {
        TrayCommand::SetMenu(_)
        | TrayCommand::SetIcon(_)
        | TrayCommand::SetTooltip(_)
        | TrayCommand::SetTitle(_)
        | TrayCommand::SetVisible(_) => true,
        TrayCommand::QueryAnchorRect
        | TrayCommand::Open
        | TrayCommand::Close
        | TrayCommand::SetTheme
        | TrayCommand::SetOptions
        | TrayCommand::Shutdown => false,
    }
}

impl SniItem {
    /// The name of the item: its tooltip, or the library's name.
    pub fn title(&self) -> (r: String)
        ensures
            r@ == match self.tray.tooltip {
                Some(tip) => tip@,
                None => "muri"@,
            },
    {
        match &self.tray.tooltip {
            Some(tip) => tip.clone(),
            None => "muri".to_owned(),
        }
    }

    /// The text of the tooltip, empty where there is none.
    pub fn tool_tip(&self) -> (r: String)
        ensures
            r@ == match self.tray.tooltip {
                Some(tip) => tip@,
                None => Seq::empty(),
            },
    {
        match &self.tray.tooltip {
            Some(tip) => tip.clone(),
            None => String::new(),
        }
    }

    /// Whether the host shows the item as active.
    pub fn is_active(&self) -> (r: bool)
        ensures
            r == self.visible,
    {
        self.visible
    }

    /// The bytes to decode for the tray picture; `None` for an icon that has none.
    pub fn picture(&self) -> (r: Option<&Vec<u8>>)
        ensures
            match self.tray.icon {
                Icon::Png(bytes) | Icon::Svg(bytes) => r == Some(&bytes),
                _ => r is None,
            },
    {
        match &self.tray.icon {
            Icon::Png(bytes) => Some(bytes),
            Icon::Svg(bytes) => Some(bytes),
            Icon::Checkmark => None,
            Icon::Symbol(_) => None,
        }
    }

    /// The menu to export. Where the menu is drawn here, the host gets none, so that there is one
    /// menu and not two.
    pub fn exported_menu(&self) -> (r: Vec<NativeItem>)
        ensures
            self.presenter is NativeDbusMenu ==> mirrors(self.menu, r@),
            !(self.presenter is NativeDbusMenu) ==> r@.len() == 0,
    {
        match self.presenter {
            LinuxMenuPresenter::X11Popup | LinuxMenuPresenter::WaylandLayerShell => Vec::new(),
            LinuxMenuPresenter::NativeDbusMenu => build_items(&self.menu),
        }
    }

    /// Applies a command other than a shutdown, which ends the loop that serves the item. The host
    /// owns the menu window, so opening, closing and restyling it change nothing here.
    pub fn apply_command(&mut self, command: TrayCommand) -> (r: SniOutcome)
        requires
            !(command is Shutdown),
        ensures
            *final(self) == match command {
                TrayCommand::SetMenu(menu) => SniItem { menu, ..*old(self) },
                TrayCommand::SetIcon(icon) => SniItem {
                    tray: TrayState { icon, ..old(self).tray },
                    ..*old(self)
                },
                TrayCommand::SetTooltip(tooltip) => SniItem {
                    tray: TrayState { tooltip, ..old(self).tray },
                    ..*old(self)
                },
                TrayCommand::SetTitle(title) => SniItem {
                    tray: TrayState { title, ..old(self).tray },
                    ..*old(self)
                },
                TrayCommand::SetVisible(visible) => SniItem { visible, ..*old(self) },
                _ => *old(self),
            },
            r is Export <==> exports(command),
            r is NoAnchor <==> command is QueryAnchorRect,
    {
        match command {
            TrayCommand::SetMenu(menu) => {
                self.menu = menu;
                SniOutcome::Export
            },
            TrayCommand::SetIcon(icon) => {
                self.tray.icon = icon;
                SniOutcome::Export
            },
            TrayCommand::SetTooltip(tooltip) => {
                self.tray.tooltip = tooltip;
                SniOutcome::Export
            },
            TrayCommand::SetTitle(title) => {
                self.tray.title = title;
                SniOutcome::Export
            },
            TrayCommand::SetVisible(visible) => {
                self.visible = visible;
                SniOutcome::Export
            },
            TrayCommand::QueryAnchorRect => SniOutcome::NoAnchor,
            TrayCommand::Open
            | TrayCommand::Close
            | TrayCommand::SetTheme
            | TrayCommand::SetOptions
            | TrayCommand::Shutdown => SniOutcome::Unchanged,
        }
    }
}

/// Whether activating a native entry reaches the click handler.
pub fn dispatches_id(id: &MenuId) -> (r: bool)
    ensures
        r == !id.inert(),
{
    !id.is_none()
}

/// The id that choosing a native entry dispatches.
pub open spec fn entry_id(native: NativeItem) -> Option<MenuId> {
    match native {
        NativeItem::Standard { label: _, enabled: _, icon: _, id } => id,
        NativeItem::Checkmark { label: _, enabled: _, checked: _, icon: _, id } => id,
        _ => None,
    }
}

/// The text of a native entry.
pub open spec fn entry_text(native: NativeItem) -> Seq<char> {
    match native {
        NativeItem::Separator => Seq::empty(),
        NativeItem::Standard { label, enabled: _, icon: _, id: _ } => label@,
        NativeItem::Checkmark { label, enabled: _, checked: _, icon: _, id: _ } => label@,
        NativeItem::SubMenu { label, enabled: _, icon: _, items: _ } => label@,
    }
}

/// The check state of a native entry.
pub open spec fn entry_check(native: NativeItem) -> Option<bool> {
    match native {
        NativeItem::Checkmark { label: _, enabled: _, checked, icon: _, id: _ } => Some(checked),
        _ => None,
    }
}

/// The picture of a native entry.
pub open spec fn entry_icon(native: NativeItem) -> NativeIcon {
    match native {
        NativeItem::Separator => NativeIcon::Absent,
        NativeItem::Standard { label: _, enabled: _, icon, id: _ } => icon,
        NativeItem::Checkmark { label: _, enabled: _, checked: _, icon, id: _ } => icon,
        NativeItem::SubMenu { label: _, enabled: _, icon, items: _ } => icon,
    }
}

/// Choosing a native entry dispatches what activating its row dispatches: an entry that can be
/// chosen and opens no submenu carries the id of its row, and there is one for every enabled row
/// with an id.
pub proof fn law_choosing_an_entry_dispatches_its_row(
    menu: Menu,
    native: Seq<NativeItem>,
    i: int,
)
    requires
        mirrors(menu, native),
        0 <= i < menu.items@.len(),
    ensures
        choosable(native[i]) && !(native[i] is SubMenu) <==> crate::keynav::activated(menu, i)
            is Some,
        choosable(native[i]) && !(native[i] is SubMenu) ==> entry_id(native[i])
            == crate::keynav::activated(menu, i),
        menu.items@[i] matches Item::Row(row) ==> {
            let lively = row.enabled && row.id.0@.len() > 0;
            &&& !(native[i] is SubMenu)
            &&& choosable(native[i]) == lively
            &&& lively ==> entry_id(native[i]) == Some(row.id)
        },
        native[i] is SubMenu <==> menu.items@[i] is Submenu,
        native[i] is Separator <==> menu.items@[i] is Separator,
{
    assert(mirrors_item(menu.items@[i], native[i]));
}

/// A native entry shows what its row shows: the text, the check mark where the row has one, and the
/// bytes of the leading picture.
pub proof fn law_a_native_entry_shows_its_row(menu: Menu, native: Seq<NativeItem>, i: int, row: Row)
    requires
        mirrors(menu, native),
        0 <= i < menu.items@.len(),
        menu.items@[i] == Item::Row(row) || menu.items@[i] == Item::SectionHeader(row) || (
        menu.items@[i] matches Item::Submenu { label, menu: _ } && label == row),
    ensures
        entry_text(native[i]) == row.label@,
        menu.items@[i] is Row ==> entry_check(native[i]) == row.checked,
        !(menu.items@[i] is Row) ==> entry_check(native[i]) is None,
        match row.leading {
            Some(Icon::Png(bytes)) => entry_icon(native[i]) matches NativeIcon::Png(b) && b@
                == bytes@,
            Some(Icon::Svg(bytes)) => entry_icon(native[i]) matches NativeIcon::Svg(b) && b@
                == bytes@,
            _ => entry_icon(native[i]) is Absent,
        },
        menu.items@[i] is Submenu ==> choosable(native[i]) == row.enabled,
        menu.items@[i] is SectionHeader ==> !choosable(native[i]) && entry_id(native[i]) is None,
{
    assert(mirrors_item(menu.items@[i], native[i]));
}

/// Menus with the same native form dispatch, read and check alike: the native menu loses nothing of
/// a row but the reason why it is disabled.
pub proof fn law_a_native_menu_tells_rows_apart(a: Menu, b: Menu, native: Seq<NativeItem>, i: int)
    requires
        mirrors(a, native),
        mirrors(b, native),
        0 <= i < native.len(),
    ensures
        a.items@.len() == b.items@.len(),
        crate::keynav::activated(a, i) == crate::keynav::activated(b, i),
        crate::keynav::selectable(a.items@[i]) == crate::keynav::selectable(b.items@[i]),
        a.items@[i] matches Item::Row(x) ==> (b.items@[i] matches Item::Row(y) ==> x.id == y.id
            && x.label@ == y.label@ && x.checked == y.checked),
{
    assert(mirrors_item(a.items@[i], native[i]));
    assert(mirrors_item(b.items@[i], native[i]));
}

/// The native form of a menu is the native form of every copy of it.
pub proof fn law_copies_have_the_same_native_form(a: Menu, b: Menu, native: Seq<NativeItem>)
    requires
        crate::menu::alike(a, b),
        mirrors(a, native),
    ensures
        mirrors(b, native),
    decreases a,
{
    assert forall|i: int| 0 <= i < b.items@.len() implies mirrors_item(
        b.items@[i],
        #[trigger] native[i],
    ) by {
        assert(crate::menu::alike_item(a.items@[i], b.items@[i]));
        assert(mirrors_item(a.items@[i], native[i]));
        match (a.items@[i], b.items@[i]) {
            (
                Item::Submenu { label: _, menu: m },
                Item::Submenu { label: _, menu: n },
            ) => {
                assert(decreases_to!(a => a.items));
                assert(decreases_to!(a.items => a.items@));
                assert(decreases_to!(a.items@ => a.items@[i]));
                law_copies_have_the_same_native_form(m, n, native[i]->items@);
            },
            _ => {},
        }
    }
}

/// The host is told of exactly the commands that change what it shows: the menu, the icon, the two
/// texts and the visibility.
pub proof fn law_what_the_host_is_told(command: TrayCommand)
    ensures
        match command {
            TrayCommand::SetMenu(_)
            | TrayCommand::SetIcon(_)
            | TrayCommand::SetTooltip(_)
            | TrayCommand::SetTitle(_)
            | TrayCommand::SetVisible(_) => exports(command),
            TrayCommand::Open
            | TrayCommand::Close
            | TrayCommand::Shutdown
            | TrayCommand::SetTheme
            | TrayCommand::SetOptions
            | TrayCommand::QueryAnchorRect => !exports(command),
        },
{
}

} // verus!
