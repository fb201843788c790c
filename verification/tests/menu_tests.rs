use trayicon::{Error, MenuBuilder, MenuItem};

const ITEM1: u64 = 1;
const ITEM2: u64 = 2;
const ITEM3: u64 = 3;
const ITEM4: u64 = 4;
const DISABLED_ITEM1: u64 = 5;
const CHECK_ITEM1: u64 = 6;
const CHECK_ITEM2: u64 = 7;
const SUB_ITEM1: u64 = 8;
const SUB_ITEM2: u64 = 9;
const SUB_ITEM3: u64 = 10;

#[test]
fn test_menu_mutation() {
    // This is a good way to create menu conditionally on application state, define a function "State -> Menu"
    let menu_builder = |checked, disabled| {
        MenuBuilder::new()
            .item("Item 4 Set Tooltip", ITEM4)
            .item("Item 3 Replace Menu üëç", ITEM3)
            .item("Item 2 Change Icon Green", ITEM2)
            .item("Item 1 Change Icon Red", ITEM1)
            .separator()
            .checkable("This is checkable", checked, CHECK_ITEM1)
            .submenu(
                "Sub Menu",
                MenuBuilder::new()
                    .item("Sub item 1", SUB_ITEM1)
                    .item("Sub Item 2", SUB_ITEM2)
                    .checkable("This is checkable", checked, CHECK_ITEM2)
                    .item("Sub Item 3", SUB_ITEM3),
            )
            .with(MenuItem::Item {
                name: "Item Disabled".into(),
                disabled,
                id: DISABLED_ITEM1,
                icon: None,
            })
    };

    let mut old = menu_builder(false, false);
    let _ = old.set_checkable(CHECK_ITEM1, true);
    let _ = old.set_disabled(DISABLED_ITEM1, true);
    let _ = old.set_checkable(CHECK_ITEM2, true);
    assert_eq!(old, menu_builder(true, true));
}

#[test]
fn set_checkable_twice_is_idempotent() {
    let build = || {
        MenuBuilder::new()
            .checkable("A", false, CHECK_ITEM1)
            .submenu("S", MenuBuilder::new().checkable("B", false, CHECK_ITEM2))
    };
    let mut once = build();
    once.set_checkable(CHECK_ITEM2, true).unwrap();
    let mut twice = build();
    twice.set_checkable(CHECK_ITEM2, true).unwrap();
    twice.set_checkable(CHECK_ITEM2, true).unwrap();
    assert_eq!(once, twice);
}

#[test]
fn mutate_missing_id_reports_not_found_and_keeps_tree() {
    let build = || {
        MenuBuilder::new()
            .item("A", ITEM1)
            .submenu("S", MenuBuilder::new().checkable("B", false, CHECK_ITEM1))
    };
    let mut m = build();
    assert_eq!(m.set_checkable(999, true), Err(Error::MenuItemNotFound));
    assert_eq!(m.set_disabled(999, true), Err(Error::MenuItemNotFound));
    assert_eq!(m, build());
}

#[test]
fn mutate_finds_first_depth_first_match() {
    // The checkable inside the submenu comes before the top-level one in
    // depth-first order, so it is the one that gets mutated.
    let mut m = MenuBuilder::new()
        .item("head", ITEM1)
        .submenu("S", MenuBuilder::new().checkable("inner", false, CHECK_ITEM1))
        .checkable("outer", false, CHECK_ITEM1);
    m.set_checkable(CHECK_ITEM1, true).unwrap();
    let expected = MenuBuilder::new()
        .item("head", ITEM1)
        .submenu("S", MenuBuilder::new().checkable("inner", true, CHECK_ITEM1))
        .checkable("outer", false, CHECK_ITEM1);
    assert_eq!(m, expected);
}

#[test]
fn set_checkable_on_plain_item_is_refused() {
    let mut m = MenuBuilder::new().item("A", ITEM1);
    assert_eq!(m.set_checkable(ITEM1, true), Err(Error::MenuItemNotFound));
    assert_eq!(m, MenuBuilder::new().item("A", ITEM1));
}

#[test]
fn get_checkable_reads_without_changing() {
    let mut m = MenuBuilder::new()
        .checkable("A", true, CHECK_ITEM1)
        .submenu("S", MenuBuilder::new().checkable("B", false, CHECK_ITEM2))
        .item("C", ITEM1);
    assert_eq!(m.get_checkable(CHECK_ITEM1), Some(true));
    assert_eq!(m.get_checkable(CHECK_ITEM2), Some(false));
    // a plain item is not checkable, a missing id finds nothing
    assert_eq!(m.get_checkable(ITEM1), None);
    assert_eq!(m.get_checkable(999), None);
}

#[test]
fn set_disabled_flips_only_the_flag() {
    let mut m = MenuBuilder::new().item("A", ITEM1).separator().item("B", ITEM2);
    m.set_disabled(ITEM2, true).unwrap();
    let expected = MenuBuilder::new()
        .item("A", ITEM1)
        .separator()
        .with(MenuItem::Item { id: ITEM2, name: "B".into(), disabled: true, icon: None });
    assert_eq!(m, expected);
}
