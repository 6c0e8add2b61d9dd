use muri::flyout::{next_flyout, HoverTarget};
use muri::keynav::{handle_key, FlyoutFocus, MenuFocus, NavAction, NavKey};
use muri::menu::{copy_menu, descend, is_submenu_at_path, menu_id_at_path, Icon, Item, Menu, MenuId, Row};

fn first_row_id(menu: &Menu) -> &str {
    match &menu.items[0] {
        Item::Row(row) => row.id.as_str(),
        other => panic!("expected a row, got {other:?}"),
    }
}

fn nested() -> Menu {
    let grandchild = Menu::new().row(Row::new("c").label("C"));
    let child = Menu::new()
        .row(Row::new("b").label("B"))
        .submenu(Row::new("sub2").label("Sub2"), grandchild);
    Menu::new()
        .row(Row::new("a").label("A"))
        .submenu(Row::new("sub1").label("Sub1"), child)
}

#[test]
fn x11_descend_borrows_nested_submenus_without_cloning() {
    let top = nested();
    assert_eq!(first_row_id(descend(&top, &[0usize; 0]).unwrap()), "a");
    assert_eq!(first_row_id(descend(&top, &[1]).unwrap()), "b");
    assert_eq!(first_row_id(descend(&top, &[1, 1]).unwrap()), "c");
    // A plain row on the path.
    assert!(descend(&top, &[0]).is_none());
    // An index out of range.
    assert!(descend(&top, &[9]).is_none());

    // The result points into `top`.
    let borrowed = descend(&top, &[1]).unwrap();
    let Item::Submenu { menu, .. } = &top.items[1] else {
        panic!("index 1 should be a submenu");
    };
    assert!(std::ptr::eq(borrowed, menu));
}

#[test]
fn mac_descend_borrows_nested_submenus_without_cloning() {
    let grandchild = Menu::new().row(Row::new("c").label("C"));
    let child = Menu::new()
        .row(Row::new("b").label("B"))
        .submenu(Row::new("sub2").label("Sub2"), grandchild);
    let top = Menu::new()
        .row(Row::new("a").label("A"))
        .submenu(Row::new("sub1").label("Sub1"), child);

    // Level 0 is the top menu itself.
    assert_eq!(first_row_id(descend(&top, &[0usize; 0]).unwrap()), "a");
    // Descending the submenu at index 1 yields the child menu.
    assert_eq!(first_row_id(descend(&top, &[1]).unwrap()), "b");
    // Two levels deep reaches the grandchild.
    assert_eq!(first_row_id(descend(&top, &[1, 1]).unwrap()), "c");
    // A non-submenu row on the path -> None.
    assert!(descend(&top, &[0]).is_none());
    // An out-of-range index -> None.
    assert!(descend(&top, &[9]).is_none());

    // The returned reference points *into* `top` (no clone).
    let borrowed = descend(&top, &[1]).unwrap();
    let Item::Submenu { menu, .. } = &top.items[1] else {
        panic!("index 1 should be a submenu");
    };
    assert!(std::ptr::eq(borrowed, menu));
}

#[test]
fn nested_submenu_opens_deep_flyout_and_dispatches_deep_leaf() {
    let menu = Menu::new()
        .row(Row::new("a").label("Apple"))
        .submenu(
            Row::new("outer").label("Outer"),
            Menu::new()
                .row(Row::new("inner_leaf").label("Inner Leaf"))
                .row(Row::new("inner_leaf2").label("Inner Leaf 2"))
                .submenu(
                    Row::new("middle").label("Middle"),
                    Menu::new().row(Row::new("deep_leaf").label("Deep Leaf")),
                ),
        )
        .row(Row::new("quit").label("Quit"));
    let outer = 1; // submenu index in the top-level menu
    let middle = 2; // submenu index *within* the outer flyout

    assert_eq!(descend(&menu, &[]).unwrap().items.len(), 3);
    let level1 = descend(&menu, &[outer]).expect("outer is a submenu");
    assert!(
        matches!(level1.items.get(middle), Some(Item::Submenu { .. })),
        "clicking the nested submenu row must open a deeper flyout"
    );
    assert!(
        descend(&menu, &[middle]).is_none(),
        "top-level resolution of a flyout-local submenu index must fail"
    );

    let deepest = descend(&menu, &[outer, middle]).expect("middle is a submenu");
    match deepest.items.first() {
        Some(Item::Row(row)) => assert_eq!(row.id, MenuId::new("deep_leaf")),
        other => panic!("expected the deep leaf row, got {other:?}"),
    }

    let stack_after_hover = next_flyout(
        &[outer],
        HoverTarget::ParentRow {
            panel: 1,
            index: middle,
        },
    );
    assert_eq!(stack_after_hover, vec![outer, middle]);

    let mut focus = MenuFocus {
        top: Some(outer),
        flyout: vec![FlyoutFocus {
            parent: outer,
            child: Some(middle),
        }],
    };
    let action = handle_key(&menu, &mut focus, NavKey::Right);
    assert_eq!(action, NavAction::OpenFlyout(middle));
    let parents: Vec<usize> = focus.flyout.iter().map(|f| f.parent).collect();
    assert_eq!(
        parents,
        vec![outer, middle],
        "keyboard descent must build the same 2-level stack the mouse does"
    );
    let deepest = descend(&menu, &parents).expect("keyboard stack resolves");
    match deepest.items.first() {
        Some(Item::Row(row)) => assert_eq!(row.id, MenuId::new("deep_leaf")),
        other => panic!("expected the deep leaf row, got {other:?}"),
    }
}

#[test]
fn descending_a_joined_path_is_descending_its_parts() {
    let top = nested();
    let whole = descend(&top, &[1, 1]).unwrap();
    let parts = descend(descend(&top, &[1]).unwrap(), &[1]).unwrap();
    assert!(std::ptr::eq(whole, parts));
}

#[test]
fn a_path_names_a_submenu_or_an_id() {
    let top = nested();
    assert!(is_submenu_at_path(&top, &[1]));
    assert!(is_submenu_at_path(&top, &[1, 1]));
    assert!(!is_submenu_at_path(&top, &[]));
    assert!(!is_submenu_at_path(&top, &[0]));
    assert_eq!(menu_id_at_path(&top, &[0]), Some(MenuId::new("a")));
    assert_eq!(menu_id_at_path(&top, &[1, 0]), Some(MenuId::new("b")));
    assert_eq!(menu_id_at_path(&top, &[1, 1, 0]), Some(MenuId::new("c")));
    assert_eq!(menu_id_at_path(&top, &[1]), None);
    assert_eq!(menu_id_at_path(&top, &[0, 0]), None);
    assert_eq!(menu_id_at_path(&top, &[7]), None);
    assert_eq!(menu_id_at_path(&top, &[]), None);
}

#[test]
fn rows_are_built_enabled_and_unlabelled() {
    let row = Row::new("x");
    assert_eq!(row.id.as_str(), "x");
    assert_eq!(row.label, "");
    assert!(row.enabled && row.checked.is_none() && row.leading.is_none());
    assert_eq!(Row::new("x").label("X").label, "X");
}

#[test]
fn an_empty_id_takes_no_part_in_dispatch() {
    assert!(MenuId::none().is_none());
    assert!(MenuId::new("").is_none());
    assert!(!MenuId::new("x").is_none());
    assert_eq!(MenuId::new("x").clone(), MenuId::new("x"));
}

#[test]
fn icons_compare_by_content() {
    assert_eq!(Icon::Png(vec![1, 2]), Icon::Png(vec![1, 2]));
    assert_ne!(Icon::Png(vec![1]), Icon::Svg(vec![1]));
}

#[test]
fn a_copy_has_the_same_content_all_the_way_down() {
    let row = Row {
        leading: Some(Icon::Png(vec![1, 2, 3])),
        enabled: false,
        checked: Some(true),
        ..Row::new("pick").label("Pick")
    };
    let menu = Menu {
        items: vec![
            Item::Separator,
            Item::Content,
            Item::SectionHeader(Row::new("").label("Head")),
            Item::Submenu {
                label: Row::new("").label("Sub"),
                menu: Menu { items: vec![Item::Row(row)] },
            },
        ],
    };
    let copy = copy_menu(&menu);
    assert_eq!(format!("{copy:?}"), format!("{menu:?}"));
    assert_eq!(menu_id_at_path(&copy, &[3, 0]), Some(MenuId::new("pick")));
}
