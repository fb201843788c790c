use std::sync::mpsc::TryRecvError;

use trayicon::{build_menu, DbusMenu, MenuBuilder};

const E1: u64 = 100;
const E2: u64 = 200;

fn scenario_menu() -> MenuBuilder {
    MenuBuilder::new()
        .checkable("A", false, E1)
        .submenu("S", MenuBuilder::new().item("B", E2))
}

#[test]
fn clicked_event_delivers_exactly_once() {
    let mut dm = DbusMenu::new(build_menu(&scenario_menu()).unwrap());
    let (tx, rx) = std::sync::mpsc::channel();
    dm.set_event_sender(tx);

    // wire id 3 is the item carrying E2
    let delivered = dm.event(3, "clicked".to_string(), 12345);
    assert_eq!(delivered, Some(E2));
    assert_eq!(rx.try_recv(), Ok((3, E2)));
    assert_eq!(rx.try_recv(), Err(TryRecvError::Empty));
}

#[test]
fn stale_or_container_ids_are_silently_dropped() {
    let mut dm = DbusMenu::new(build_menu(&scenario_menu()).unwrap());
    let (tx, rx) = std::sync::mpsc::channel();
    dm.set_event_sender(tx);

    // id 2 is the submenu container without an event id; id 99 is unknown
    assert_eq!(dm.event(2, "clicked".to_string(), 0), None);
    assert_eq!(dm.event(99, "clicked".to_string(), 0), None);
    assert_eq!(rx.try_recv(), Err(TryRecvError::Empty));
}

#[test]
fn only_clicked_events_are_routed() {
    let mut dm = DbusMenu::new(build_menu(&scenario_menu()).unwrap());
    let (tx, rx) = std::sync::mpsc::channel();
    dm.set_event_sender(tx);

    assert_eq!(dm.event(1, "hovered".to_string(), 0), None);
    assert_eq!(dm.event(1, "opened".to_string(), 0), None);
    assert_eq!(rx.try_recv(), Err(TryRecvError::Empty));
    assert_eq!(dm.event(1, "clicked".to_string(), 0), Some(E1));
    assert_eq!(rx.try_recv(), Ok((1, E1)));
}

#[test]
fn event_without_sink_still_resolves() {
    let dm = DbusMenu::new(build_menu(&scenario_menu()).unwrap());
    assert_eq!(dm.event(1, "clicked".to_string(), 0), Some(E1));
}

#[test]
fn replaced_tree_routes_through_the_new_table() {
    let mut dm = DbusMenu::new(build_menu(&scenario_menu()).unwrap());
    let (tx, rx) = std::sync::mpsc::channel();
    dm.set_event_sender(tx);

    let replacement = MenuBuilder::new().item("only", 999);
    let _ = dm.set_menu(build_menu(&replacement).unwrap());

    // id 3 belonged to the old generation; the new tree only has id 1
    assert_eq!(dm.event(3, "clicked".to_string(), 0), None);
    assert_eq!(dm.event(1, "clicked".to_string(), 0), Some(999));
    assert_eq!(rx.try_recv(), Ok((1, 999)));
    assert_eq!(rx.try_recv(), Err(TryRecvError::Empty));
}
