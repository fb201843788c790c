use trayicon::{build_menu, DbusMenu, Error, Layout, MenuBuilder, PropValue};

const E1: u64 = 100;
const E2: u64 = 200;

fn scenario_menu() -> MenuBuilder {
    MenuBuilder::new()
        .checkable("A", false, E1)
        .submenu("S", MenuBuilder::new().item("B", E2))
}

fn prop<'a>(l: &'a Layout, name: &str) -> Option<&'a PropValue> {
    l.properties.iter().find(|(k, _)| k == name).map(|(_, v)| v)
}

fn text_of(p: &PropValue) -> &str {
    match p {
        PropValue::Text(s) => s,
        _ => panic!("expected a text property"),
    }
}

fn int_of(p: &PropValue) -> i32 {
    match p {
        PropValue::Int(i) => *i,
        _ => panic!("expected an integer property"),
    }
}

fn flag_of(p: &PropValue) -> bool {
    match p {
        PropValue::Flag(b) => *b,
        _ => panic!("expected a boolean property"),
    }
}

#[test]
fn layout_of_root_and_submenu_and_unknown_id() {
    let dm = DbusMenu::new(build_menu(&scenario_menu()).unwrap());

    let (_, root) = dm.get_layout(0, -1, Vec::new()).unwrap();
    assert_eq!(root.id, 0);
    assert!(root.properties.is_empty());
    let child_ids: Vec<i32> = root.children.iter().map(|c| c.id).collect();
    assert_eq!(child_ids, vec![1, 2]);

    let (_, sub) = dm.get_layout(2, -1, Vec::new()).unwrap();
    assert_eq!(sub.id, 2);
    let sub_ids: Vec<i32> = sub.children.iter().map(|c| c.id).collect();
    assert_eq!(sub_ids, vec![3]);

    assert_eq!(dm.get_layout(5, -1, Vec::new()).unwrap_err(), Error::MenuItemNotFound);
}

#[test]
fn set_checkable_shows_in_layout() {
    let mut mb = scenario_menu();
    mb.set_checkable(E1, true).unwrap();
    let dm = DbusMenu::new(build_menu(&mb).unwrap());
    let (_, root) = dm.get_layout(0, -1, Vec::new()).unwrap();
    let a = &root.children[0];
    assert_eq!(a.id, 1);
    assert_eq!(text_of(prop(a, "toggle-type").unwrap()), "checkbox");
    assert_eq!(int_of(prop(a, "toggle-state").unwrap()), 1);
}

#[test]
fn node_properties_follow_their_kind() {
    let mb = MenuBuilder::new()
        .separator()
        .item("plain", E1)
        .checkable("check", false, E2)
        .submenu("sub", MenuBuilder::new().item("inner", 300));
    let dm = DbusMenu::new(build_menu(&mb).unwrap());
    let (_, root) = dm.get_layout(0, -1, Vec::new()).unwrap();

    let sep = &root.children[0];
    assert_eq!(text_of(prop(sep, "type").unwrap()), "separator");
    assert!(prop(sep, "label").is_none());
    assert!(prop(sep, "enabled").is_none());

    let plain = &root.children[1];
    assert_eq!(text_of(prop(plain, "label").unwrap()), "plain");
    assert!(flag_of(prop(plain, "enabled").unwrap()));
    assert!(prop(plain, "toggle-type").is_none());
    assert!(prop(plain, "children-display").is_none());

    let check = &root.children[2];
    assert_eq!(text_of(prop(check, "toggle-type").unwrap()), "checkbox");
    assert_eq!(int_of(prop(check, "toggle-state").unwrap()), 0);

    let sub = &root.children[3];
    assert_eq!(text_of(prop(sub, "children-display").unwrap()), "submenu");
    assert_eq!(sub.children.len(), 1);
    assert_eq!(text_of(prop(&sub.children[0], "label").unwrap()), "inner");
}

#[test]
fn disabled_nodes_report_enabled_false() {
    let mut mb = MenuBuilder::new().item("plain", E1);
    mb.set_disabled(E1, true).unwrap();
    let dm = DbusMenu::new(build_menu(&mb).unwrap());
    let (_, root) = dm.get_layout(0, -1, Vec::new()).unwrap();
    assert!(!flag_of(prop(&root.children[0], "enabled").unwrap()));
}

fn walk_labels(dm: &DbusMenu, parent: i32, out: &mut Vec<String>) {
    let (_, l) = dm.get_layout(parent, -1, Vec::new()).unwrap();
    for c in &l.children {
        if let Some(p) = prop(c, "label") {
            out.push(text_of(p).to_string());
        } else {
            out.push(String::new());
        }
        if prop(c, "children-display").is_some() {
            walk_labels(dm, c.id, out);
        }
    }
}

#[test]
fn recursive_walk_reconstructs_the_tree() {
    // The host's walk: the root first, then every submenu by the id the
    // layout reported. It sees the labels in the order they were appended.
    let mb = MenuBuilder::new()
        .item("one", 1)
        .submenu(
            "two",
            MenuBuilder::new().item("three", 2).submenu("four", MenuBuilder::new().item("five", 3)),
        )
        .separator()
        .item("six", 4);
    let dm = DbusMenu::new(build_menu(&mb).unwrap());
    let mut labels = Vec::new();
    walk_labels(&dm, 0, &mut labels);
    assert_eq!(labels, vec!["one", "two", "three", "four", "five", "", "six"]);
}

#[test]
fn replacing_the_menu_bumps_the_revision_and_swaps_the_whole_tree() {
    let mut dm = DbusMenu::new(build_menu(&scenario_menu()).unwrap());
    let (rev0, _) = dm.get_layout(0, -1, Vec::new()).unwrap();
    assert_eq!(rev0, 1);

    let replacement = MenuBuilder::new().item("fresh", 300);
    let (rev1, parent) = dm.set_menu(build_menu(&replacement).unwrap());
    assert_eq!(rev1, 2);
    assert_eq!(parent, 0);

    // the response is computed from the new snapshot alone
    let (rev2, root) = dm.get_layout(0, -1, Vec::new()).unwrap();
    assert_eq!(rev2, 2);
    assert_eq!(root.children.len(), 1);
    assert_eq!(text_of(prop(&root.children[0], "label").unwrap()), "fresh");
    // the old submenu id no longer resolves
    assert_eq!(dm.get_layout(2, -1, Vec::new()).unwrap_err(), Error::MenuItemNotFound);

    let (rev3, _) = dm.set_menu(build_menu(&scenario_menu()).unwrap());
    assert_eq!(rev3, 3);
}
