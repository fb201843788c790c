use trayicon::{build_menu, MenuBuilder, MenuItemData};

const CHECKABLE_ITEM1: u64 = 1;
const ITEM1: u64 = 2;
const SUB_ITEM1: u64 = 3;
const SUB_ITEM2: u64 = 4;
const SUB_ITEM3: u64 = 5;
const SUB_ITEM4: u64 = 6;
const SUB_SUB_ITEM1: u64 = 7;
const SUB_SUB_ITEM2: u64 = 8;
const SUB_SUB_ITEM3: u64 = 9;

fn example_builder() -> MenuBuilder {
    let cond = false;
    MenuBuilder::new()
        .checkable("This is checkable", true, CHECKABLE_ITEM1)
        .submenu(
            "Sub Menu",
            MenuBuilder::new()
                .item("Sub item 1", SUB_ITEM1)
                .item("Sub Item 2", SUB_ITEM2)
                .item("Sub Item 3", SUB_ITEM3)
                .submenu(
                    "Sub Sub menu",
                    MenuBuilder::new()
                        .item("Sub Sub item 1", SUB_SUB_ITEM1)
                        .item("Sub Sub Item 2", SUB_SUB_ITEM2)
                        .item("Sub Sub Item 3", SUB_SUB_ITEM3),
                )
                .when(|f| if cond { f.item("Foo", ITEM1) } else { f })
                .item("Sub Item 4", SUB_ITEM4),
        )
        .item("Item 1", ITEM1)
}

fn count_items(items: &[MenuItemData]) -> usize {
    let mut count = items.len();
    for item in items {
        count += count_items(&item.children);
    }
    count
}

#[test]
fn test_menu_build() {
    let builder = example_builder();
    if let Ok(menusys) = build_menu(&builder) {
        let total_items = count_items(&menusys.items);
        assert_eq!(total_items, 11);
    } else {
        panic!()
    }
}

#[test]
fn mod_test_menu_build() {
    // Only event-carrying nodes (items and checkables here) get id-table
    // entries: nine of the eleven nodes.
    let builder = example_builder();
    if let Ok(menusys) = build_menu(&builder) {
        assert_eq!(menusys.table.len(), 9);
    } else {
        panic!()
    }
}

fn collect_ids(items: &[MenuItemData], out: &mut Vec<i32>) {
    for item in items {
        out.push(item.id);
        collect_ids(&item.children, out);
    }
}

#[test]
fn assigned_ids_are_unique_and_positive() {
    let ms = build_menu(&example_builder()).unwrap();
    let mut ids = Vec::new();
    collect_ids(&ms.items, &mut ids);
    assert_eq!(ids.len(), 11);
    for (i, a) in ids.iter().enumerate() {
        assert!(*a >= 1);
        for b in ids.iter().skip(i + 1) {
            assert_ne!(*a, *b);
        }
    }
    // pre-order ids are consecutive from 1
    let mut sorted = ids.clone();
    sorted.sort();
    let expected: Vec<i32> = (1..=11).collect();
    assert_eq!(sorted, expected);
}

const E1: u64 = 100;
const E2: u64 = 200;

#[test]
fn two_level_assignment_and_table() {
    // tree: [Checkable("A", unchecked, E1), Submenu("S", [Item("B", E2)])]
    let mb = MenuBuilder::new()
        .checkable("A", false, E1)
        .submenu("S", MenuBuilder::new().item("B", E2));
    let ms = build_menu(&mb).unwrap();

    assert_eq!(ms.items.len(), 2);
    assert_eq!(ms.items[0].id, 1);
    assert_eq!(ms.items[0].label, "A");
    assert!(ms.items[0].is_checkable);
    assert!(!ms.items[0].is_checked);
    assert_eq!(ms.items[0].event_id, Some(E1));

    assert_eq!(ms.items[1].id, 2);
    assert_eq!(ms.items[1].label, "S");
    assert_eq!(ms.items[1].children.len(), 1);
    assert_eq!(ms.items[1].children[0].id, 3);
    assert_eq!(ms.items[1].children[0].label, "B");
    assert_eq!(ms.items[1].children[0].event_id, Some(E2));

    assert_eq!(ms.table.len(), 2);
    assert_eq!(ms.table.lookup(1), Some(E1));
    assert_eq!(ms.table.lookup(3), Some(E2));
    assert_eq!(ms.table.lookup(2), None);
    assert_eq!(ms.table.lookup(5), None);
}

#[test]
fn separators_get_ids_but_no_table_entry() {
    let mb = MenuBuilder::new().separator().item("A", E1);
    let ms = build_menu(&mb).unwrap();
    assert_eq!(ms.items[0].id, 1);
    assert!(ms.items[0].is_separator);
    assert_eq!(ms.items[0].event_id, None);
    assert_eq!(ms.items[1].id, 2);
    assert_eq!(ms.table.len(), 1);
    assert_eq!(ms.table.lookup(1), None);
    assert_eq!(ms.table.lookup(2), Some(E1));
}
