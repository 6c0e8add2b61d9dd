use muri::linux::LinuxMenuPresenter;
use muri::menu::{Icon, Item, Menu, MenuId, Row};
use muri::sni::{changes_item, build_items, dispatches_id, leading_icon, NativeIcon, NativeItem, SniItem, SniOutcome};
use muri::tray::{TrayCommand, TrayState};

fn menu() -> Menu {
    let mut checked = Row::new("on").label("On");
    checked.checked = Some(true);
    checked.leading = Some(Icon::Png(vec![1, 2, 3]));
    let mut heading = Row::new("").label("Heading");
    heading.leading = Some(Icon::Svg(vec![9]));
    Menu::new()
        .item(Item::SectionHeader(heading))
        .row(checked)
        .item(Item::Separator)
        .row(Row::new("").label("Inert"))
        .item(Item::Content)
        .submenu(Row::new("").label("More"), Menu::new().row(Row::new("in").label("In")))
}

#[test]
fn the_native_menu_mirrors_the_menu() {
    let native = build_items(&menu());
    assert_eq!(native.len(), 6);
    match &native[0] {
        NativeItem::Standard { label, enabled, icon, id } => {
            assert_eq!(label, "Heading");
            assert!(!enabled && id.is_none());
            assert!(matches!(icon, NativeIcon::Svg(b) if b == &vec![9]));
        }
        other => panic!("{other:?}"),
    }
    match &native[1] {
        NativeItem::Checkmark { label, enabled, checked, icon, id } => {
            assert_eq!(label, "On");
            assert!(*enabled && *checked);
            assert!(matches!(icon, NativeIcon::Png(b) if b == &vec![1, 2, 3]));
            assert_eq!(*id, Some(MenuId::new("on")));
        }
        other => panic!("{other:?}"),
    }
    assert!(matches!(native[2], NativeItem::Separator));
    match &native[3] {
        NativeItem::Standard { enabled, .. } => assert!(!enabled, "an inert row is disabled"),
        other => panic!("{other:?}"),
    }
    match &native[4] {
        NativeItem::Standard { label, enabled, icon, id } => {
            assert_eq!(label, "");
            assert!(!enabled && id.is_none() && matches!(icon, NativeIcon::Absent));
        }
        other => panic!("{other:?}"),
    }
    match &native[5] {
        NativeItem::SubMenu { label, enabled, items, .. } => {
            assert_eq!(label, "More");
            assert!(*enabled);
            assert_eq!(items.len(), 1);
        }
        other => panic!("{other:?}"),
    }
}

#[test]
fn symbols_and_check_marks_have_no_bytes() {
    assert!(matches!(leading_icon(&None), NativeIcon::Absent));
    assert!(matches!(leading_icon(&Some(Icon::Checkmark)), NativeIcon::Absent));
    assert!(matches!(leading_icon(&Some(Icon::Symbol("x".to_string()))), NativeIcon::Absent));
}

fn item(presenter: LinuxMenuPresenter) -> SniItem {
    SniItem {
        tray: TrayState {
            icon: Icon::Png(vec![7]),
            tooltip: None,
            title: None,
        },
        menu: menu(),
        visible: true,
        presenter,
    }
}

#[test]
fn an_own_popup_exports_no_menu() {
    assert_eq!(item(LinuxMenuPresenter::NativeDbusMenu).exported_menu().len(), 6);
    assert!(item(LinuxMenuPresenter::X11Popup).exported_menu().is_empty());
    assert!(item(LinuxMenuPresenter::WaylandLayerShell).exported_menu().is_empty());
}

#[test]
fn the_tooltip_names_the_item() {
    let mut i = item(LinuxMenuPresenter::NativeDbusMenu);
    assert_eq!(i.title(), "muri");
    assert_eq!(i.tool_tip(), "");
    let r = i.apply_command(TrayCommand::SetTooltip(Some("Tip".to_string())));
    assert_eq!(r, SniOutcome::Export);
    assert_eq!(i.title(), "Tip");
    assert_eq!(i.tool_tip(), "Tip");
}

#[test]
fn commands_change_what_is_exported() {
    let mut i = item(LinuxMenuPresenter::NativeDbusMenu);
    assert_eq!(i.picture(), Some(&vec![7]));
    assert!(i.is_active());
    assert_eq!(i.apply_command(TrayCommand::SetVisible(false)), SniOutcome::Export);
    assert!(!i.is_active());
    assert_eq!(i.apply_command(TrayCommand::SetIcon(Icon::Checkmark)), SniOutcome::Export);
    assert_eq!(i.picture(), None);
    assert_eq!(i.apply_command(TrayCommand::SetMenu(Menu::new())), SniOutcome::Export);
    assert!(i.exported_menu().is_empty());
    assert_eq!(i.apply_command(TrayCommand::SetTitle(Some("T".to_string()))), SniOutcome::Export);
    assert_eq!(i.tray.title.as_deref(), Some("T"));
    assert_eq!(i.apply_command(TrayCommand::Open), SniOutcome::Unchanged);
    assert_eq!(i.apply_command(TrayCommand::Close), SniOutcome::Unchanged);
    assert_eq!(i.apply_command(TrayCommand::SetTheme), SniOutcome::Unchanged);
    assert_eq!(i.apply_command(TrayCommand::SetOptions), SniOutcome::Unchanged);
    assert_eq!(i.apply_command(TrayCommand::QueryAnchorRect), SniOutcome::NoAnchor);
}

#[test]
fn only_some_commands_reach_the_item() {
    assert!(changes_item(&TrayCommand::SetMenu(Menu::new())));
    assert!(changes_item(&TrayCommand::SetIcon(Icon::Checkmark)));
    assert!(changes_item(&TrayCommand::SetTooltip(None)));
    assert!(changes_item(&TrayCommand::SetTitle(None)));
    assert!(changes_item(&TrayCommand::SetVisible(true)));
    for command in [
        TrayCommand::Open,
        TrayCommand::Close,
        TrayCommand::Shutdown,
        TrayCommand::SetTheme,
        TrayCommand::SetOptions,
        TrayCommand::QueryAnchorRect,
    ] {
        assert!(!changes_item(&command));
    }
}

#[test]
fn inert_ids_never_reach_the_handler() {
    assert!(dispatches_id(&MenuId::new("x")));
    assert!(!dispatches_id(&MenuId::none()));
}
