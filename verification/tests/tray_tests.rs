use std::sync::mpsc::TryRecvError;

use trayicon::{
    service_name, Error, Icon, MenuBuilder, Signal, StatusNotifierEvent, TrayIconBuilder,
    TrayIconSender, TrayIconStatus,
};

const CLICK: u64 = 1;
const CHECK: u64 = 2;

/// A 2 by 2 RGBA test image encoded as an ICO file, leaked so the buffer
/// lives as long as the test process, like an embedded asset would.
fn test_ico() -> (&'static [u8], Vec<u8>) {
    let rgba: Vec<u8> = vec![
        10, 20, 30, 255, 40, 50, 60, 255, 70, 80, 90, 255, 100, 110, 120, 255,
    ];
    let img = ico::IconImage::from_rgba_data(2, 2, rgba.clone());
    let mut dir = ico::IconDir::new(ico::ResourceType::Icon);
    dir.add_entry(ico::IconDirEntry::encode(&img).unwrap());
    let mut buf = Vec::new();
    dir.write(&mut buf).unwrap();
    (Box::leak(buf.into_boxed_slice()), rgba)
}

#[test]
fn icon_decoding_reorders_pixels_to_alpha_first() {
    let (buffer, rgba) = test_ico();
    let icon = Icon::from_buffer(buffer, None, None).unwrap();
    assert_eq!(icon.sys.width, 2);
    assert_eq!(icon.sys.height, 2);
    let argb = icon.sys.argb_pixels.as_ref().unwrap();
    assert_eq!(argb.len(), rgba.len());
    for px in 0..4 {
        assert_eq!(argb[4 * px], rgba[4 * px + 3]);
        assert_eq!(argb[4 * px + 1], rgba[4 * px]);
        assert_eq!(argb[4 * px + 2], rgba[4 * px + 1]);
        assert_eq!(argb[4 * px + 3], rgba[4 * px + 2]);
    }
}

#[test]
fn malformed_icon_buffer_is_reported() {
    let bogus: &'static [u8] = b"this is not an ico file";
    assert_eq!(Icon::from_buffer(bogus, None, None).unwrap_err(), Error::IconLoadingFailed);
}

#[test]
fn build_requires_icon_then_sender() {
    let (tx, _rx) = std::sync::mpsc::channel();
    assert_eq!(
        TrayIconBuilder::new().sender(TrayIconSender::new(tx)).build().unwrap_err(),
        Error::IconMissing
    );

    let (buffer, _) = test_ico();
    let icon = Icon::from_buffer(buffer, None, None).unwrap();
    assert_eq!(TrayIconBuilder::new().icon(icon).build().unwrap_err(), Error::SenderMissing);
}

#[test]
fn facade_applies_updates_and_queues_signals() {
    let (buffer, _) = test_ico();
    let icon = Icon::from_buffer(buffer, None, None).unwrap();
    let (tx, _rx) = std::sync::mpsc::channel();
    let menu = MenuBuilder::new()
        .checkable("A", false, CHECK)
        .submenu("S", MenuBuilder::new().item("B", 3));
    let mut tray = TrayIconBuilder::new()
        .icon(icon)
        .sender(TrayIconSender::new(tx))
        .tooltip("hello")
        .on_click(CLICK)
        .menu(menu)
        .build()
        .unwrap();

    assert_eq!(tray.sys.take_signals(), vec![Signal::NewIcon]);

    tray.set_tooltip("hello").unwrap();
    assert_eq!(tray.sys.take_signals(), vec![]);
    tray.set_tooltip("other").unwrap();
    assert_eq!(tray.sys.take_signals(), vec![Signal::NewToolTip]);

    tray.sys.set_status(TrayIconStatus::NeedsAttention).unwrap();
    assert_eq!(tray.sys.take_signals(), vec![Signal::NewStatus(TrayIconStatus::NeedsAttention)]);
    assert_eq!(tray.sys.item.status(), "NeedsAttention");

    // mutate by event id through the facade, then check the served layout
    assert_eq!(tray.get_menu_item_checkable(CHECK), Some(false));
    tray.set_menu_item_checkable(CHECK, true).unwrap();
    assert_eq!(tray.get_menu_item_checkable(CHECK), Some(true));
    let dm = tray.sys.dbus_menu.as_ref().unwrap();
    let (rev, root) = dm.get_layout(0, -1, Vec::new()).unwrap();
    assert_eq!(rev, 2);
    let toggle = root.children[0]
        .properties
        .iter()
        .find(|(k, _)| k == "toggle-state")
        .map(|(_, v)| v.clone());
    match toggle {
        Some(trayicon::PropValue::Int(v)) => assert_eq!(v, 1),
        _ => panic!("toggle-state missing"),
    }
    assert_eq!(tray.sys.take_signals(), vec![Signal::LayoutUpdated(2, 0)]);
}

#[test]
fn icon_activation_reaches_the_application_sink() {
    let (buffer, _) = test_ico();
    let icon = Icon::from_buffer(buffer, None, None).unwrap();
    let (tx, rx) = std::sync::mpsc::channel();
    let mut tray = TrayIconBuilder::new()
        .icon(icon)
        .sender(TrayIconSender::new(tx))
        .on_click(CLICK)
        .build()
        .unwrap();

    assert_eq!(tray.sys.route_notifier_event(StatusNotifierEvent::Activate(5, 7)), Some(CLICK));
    assert_eq!(rx.try_recv(), Ok(CLICK));
    assert_eq!(rx.try_recv(), Err(TryRecvError::Empty));

    // scroll events are not routed to the click handler
    assert_eq!(
        tray.sys.route_notifier_event(StatusNotifierEvent::Scroll(1, "vertical".to_string())),
        None
    );
    assert_eq!(rx.try_recv(), Err(TryRecvError::Empty));
}

#[test]
fn activation_token_is_cached_for_later_reads() {
    let (buffer, _) = test_ico();
    let icon = Icon::from_buffer(buffer, None, None).unwrap();
    let (tx, _rx) = std::sync::mpsc::channel();
    let mut tray =
        TrayIconBuilder::new().icon(icon).sender(TrayIconSender::new(tx)).build().unwrap();

    assert_eq!(tray.sys.get_xdg_activation_token(), None);
    tray.sys.route_notifier_event(StatusNotifierEvent::ProvideXdgActivationToken(
        "token-abc".to_string(),
    ));
    assert_eq!(tray.sys.get_xdg_activation_token(), Some("token-abc".to_string()));
}

#[test]
fn registry_serves_what_was_set() {
    let (buffer, _) = test_ico();
    let icon = Icon::from_buffer(buffer, None, None).unwrap();
    let argb = icon.sys.argb_pixels.clone().unwrap();
    let (tx, _rx) = std::sync::mpsc::channel();
    let tray = TrayIconBuilder::new()
        .icon(icon)
        .sender(TrayIconSender::new(tx))
        .tooltip("tip")
        .build()
        .unwrap();

    let item = &tray.sys.item;
    assert_eq!(item.icon_name(), "");
    let pixmaps = item.icon_pixmap();
    assert_eq!(pixmaps.len(), 1);
    assert_eq!(pixmaps[0].0, 2);
    assert_eq!(pixmaps[0].1, 2);
    assert_eq!(pixmaps[0].2, argb);
    let (head, icons, text, tail) = item.tool_tip();
    assert_eq!(head, "");
    assert!(icons.is_empty());
    assert_eq!(text, "tip");
    assert_eq!(tail, "");
    assert_eq!(item.title(), "Application");
    assert_eq!(item.menu(), "/MenuBar");
    assert_eq!(item.status(), "Active");
}

#[test]
fn service_name_embeds_the_process_id() {
    assert_eq!(service_name(0), "org.kde.StatusNotifierItem-0-1");
    assert_eq!(service_name(1234), "org.kde.StatusNotifierItem-1234-1");
    assert_eq!(service_name(4294967295), "org.kde.StatusNotifierItem-4294967295-1");
}

#[test]
fn facade_mutators_report_missing_ids() {
    let (buffer, _) = test_ico();
    let icon = Icon::from_buffer(buffer, None, None).unwrap();
    let (tx, _rx) = std::sync::mpsc::channel();
    let menu = MenuBuilder::new().checkable("A", false, CHECK);
    let mut tray = TrayIconBuilder::new()
        .icon(icon)
        .sender(TrayIconSender::new(tx))
        .menu(menu)
        .build()
        .unwrap();
    let _ = tray.sys.take_signals();

    // a missing id fails, leaves the served tree on its first generation,
    // and queues no signal
    assert_eq!(tray.set_menu_item_checkable(999, true), Err(Error::MenuItemNotFound));
    assert_eq!(tray.set_menu_item_disabled(999, true), Err(Error::MenuItemNotFound));
    assert_eq!(tray.sys.take_signals(), vec![]);
    let dm = tray.sys.dbus_menu.as_ref().unwrap();
    let (rev, _) = dm.get_layout(0, -1, Vec::new()).unwrap();
    assert_eq!(rev, 1);

    // a matching id still succeeds and re-serves the tree
    assert_eq!(tray.set_menu_item_checkable(CHECK, true), Ok(()));
    assert_eq!(tray.sys.take_signals(), vec![Signal::LayoutUpdated(2, 0)]);
}

#[test]
fn facade_mutators_without_a_menu_fail() {
    let (buffer, _) = test_ico();
    let icon = Icon::from_buffer(buffer, None, None).unwrap();
    let (tx, _rx) = std::sync::mpsc::channel();
    let mut tray =
        TrayIconBuilder::new().icon(icon).sender(TrayIconSender::new(tx)).build().unwrap();
    let _ = tray.sys.take_signals();
    assert_eq!(tray.set_menu_item_checkable(CHECK, true), Err(Error::MenuItemNotFound));
    assert_eq!(tray.set_menu_item_disabled(CHECK, true), Err(Error::MenuItemNotFound));
    assert_eq!(tray.sys.take_signals(), vec![]);
}

#[test]
fn icon_loading_picks_the_largest_entry() {
    // two entries: 2x2 and 4x4; the larger one is decoded
    let small = ico::IconImage::from_rgba_data(2, 2, vec![1u8; 16]);
    let large_rgba: Vec<u8> = (0..64u8).collect();
    let large = ico::IconImage::from_rgba_data(4, 4, large_rgba.clone());
    let mut dir = ico::IconDir::new(ico::ResourceType::Icon);
    dir.add_entry(ico::IconDirEntry::encode(&small).unwrap());
    dir.add_entry(ico::IconDirEntry::encode(&large).unwrap());
    let mut buf = Vec::new();
    dir.write(&mut buf).unwrap();
    let buffer: &'static [u8] = Box::leak(buf.into_boxed_slice());

    let icon = Icon::from_buffer(buffer, None, None).unwrap();
    assert_eq!(icon.sys.width, 4);
    assert_eq!(icon.sys.height, 4);
    let argb = icon.sys.argb_pixels.as_ref().unwrap();
    assert_eq!(argb.len(), 64);
    for px in 0..16 {
        assert_eq!(argb[4 * px], large_rgba[4 * px + 3]);
        assert_eq!(argb[4 * px + 1], large_rgba[4 * px]);
    }
}

#[test]
fn node_count_counts_every_level() {
    let menu = MenuBuilder::new()
        .item("a", 1)
        .separator()
        .submenu("s", MenuBuilder::new().item("b", 2).submenu("t", MenuBuilder::new()));
    assert_eq!(menu.node_count(), 5);
    assert_eq!(MenuBuilder::new().node_count(), 0);
}
