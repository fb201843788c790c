use vstd::prelude::*;

use crate::dbusmenu::{DbusMenu, DbusMenuView};
use crate::icon::{clone_bytes, Icon};
use crate::menubuilder::{seq_size, MenuBuilder};
use crate::menusys::{build_menu, convert_nodes, table_of_seq};
use crate::notifieritem::{
    IconData, IconDataView, ItemView, StatusNotifierEvent, StatusNotifierItemImpl, TrayIconStatus,
};
use crate::trayiconbuilder::{Error, TrayIconBuilder};
use crate::trayiconsender::TrayIconSender;

verus! {

/// A change signal the platform glue still has to emit on the bus: the
/// state change it reports has already been applied.
#[derive(Debug, Clone, Copy, PartialEq, Eq, Structural)]
pub enum Signal {
    NewIcon,
    NewToolTip,
    NewTitle,
    NewStatus(TrayIconStatus),
    LayoutUpdated(u32, i32),
}

/// Ghost mirror of [`KdeTrayIconImpl`].
#[verifier::ext_equal]
pub struct KdeTrayView {
    pub menu: Option<DbusMenuView>,
    pub item: ItemView,
    pub token: Option<Seq<char>>,
    pub on_click: Option<u64>,
    pub on_double_click: Option<u64>,
    pub on_right_click: Option<u64>,
    pub signals: Seq<Signal>,
}

/// The platform-side tray icon: the menu adapter, the status-item
/// registry, the cached activation token, the tray-level click routing,
/// and the queue of change signals the glue still has to emit. The glue
/// owns the whole value under one lock; the receiver ends of the two
/// channels are taken out once and drained on the application's threads.
#[derive(Debug)]
pub struct KdeTrayIconImpl {
    pub dbus_menu: Option<DbusMenu>,
    pub item: StatusNotifierItemImpl,
    pub last_xdg_activation_token: Option<String>,
    pub on_click: Option<u64>,
    pub on_double_click: Option<u64>,
    pub on_right_click: Option<u64>,
    pub sender: TrayIconSender,
    pub signals: Vec<Signal>,
    pub menu_event_receiver: Option<std::sync::mpsc::Receiver<(i32, u64)>>,
    pub notifier_receiver: Option<std::sync::mpsc::Receiver<StatusNotifierEvent>>,
}

impl View for KdeTrayIconImpl {
    type V = KdeTrayView;

    open spec fn view(&self) -> KdeTrayView {
        KdeTrayView {
            menu: match &self.dbus_menu {
                Some(dm) => Some(dm@),
                None => None,
            },
            item: self.item@,
            token: match &self.last_xdg_activation_token {
                Some(t) => Some(t@),
                None => None,
            },
            on_click: self.on_click,
            on_double_click: self.on_double_click,
            on_right_click: self.on_right_click,
            signals: self.signals@,
        }
    }
}

/// Build the platform tray icon from the accumulated builder state: the
/// icon and the event sink are required; the menu, when present, is
/// assigned its wire ids and served as generation 1. The first pending
/// signal announces the icon, so the host repaints once the object is
/// registered.
pub fn build_trayicon(builder: &TrayIconBuilder) -> (r: Result<KdeTrayIconImpl, Error>)
    requires
        builder@.menu matches Some(m) ==> seq_size(m) <= i32::MAX,
    ensures
        builder@.icon matches Err(e) ==> r == Err::<KdeTrayIconImpl, Error>(e),
        builder@.icon is Ok && !builder@.has_sender ==> r == Err::<KdeTrayIconImpl, Error>(
            Error::SenderMissing,
        ),
        builder@.icon matches Ok(iv) ==> builder@.has_sender ==> (r matches Ok(k) && ({
            &&& k@.item.icon == (IconDataView {
                buffer: iv.sys.argb_pixels,
                width: iv.sys.width,
                height: iv.sys.height,
            })
            &&& k@.item.tooltip == (match builder@.tooltip {
                Some(t) => t,
                None => ""@,
            })
            &&& k@.item.title == (match builder@.title {
                Some(t) => t,
                None => "Application"@,
            })
            &&& k@.item.status == TrayIconStatus::Active
            &&& k@.item.id == "org.kde.StatusNotifierItem"@
            &&& !k@.item.item_is_menu
            &&& k@.token is None
            &&& k@.on_click == builder@.on_click
            &&& k@.on_double_click == builder@.on_double_click
            &&& k@.on_right_click == builder@.on_right_click
            &&& k@.signals == seq![Signal::NewIcon]
            &&& (match builder@.menu {
                Some(m) => k@.menu matches Some(dm) && dm.items == convert_nodes(m, 0) && dm.table
                    == table_of_seq(convert_nodes(m, 0)) && dm.revision == 1 && dm.has_sender,
                None => k@.menu is None,
            })
        })),
{
    let icon = match &builder.icon {
        Ok(i) => i.clone(),
        Err(e) => {
            return Err(*e);
        },
    };
    let sender = match &builder.sender {
        Some(s) => s.clone(),
        None => {
            return Err(Error::SenderMissing);
        },
    };
    let tooltip = match &builder.tooltip {
        Some(t) => t.clone(),
        None => "".to_owned(),
    };
    let title = match &builder.title {
        Some(t) => t.clone(),
        None => "Application".to_owned(),
    };
    let (ntx, nrx) = std::sync::mpsc::channel::<StatusNotifierEvent>();
    let icon_data = IconData {
        buffer: match &icon.sys.argb_pixels {
            Some(p) => Some(clone_bytes(p)),
            None => None,
        },
        width: icon.sys.width,
        height: icon.sys.height,
    };
    let item = StatusNotifierItemImpl::new(
        "org.kde.StatusNotifierItem".to_owned(),
        ntx,
        icon_data,
        tooltip,
        title,
        false,
    );
    let (dbus_menu, menu_rx) = match &builder.menu {
        Some(mb) => {
            let ms = match build_menu(mb) {
                Ok(m) => m,
                Err(e) => {
                    return Err(e);
                },
            };
            let (tx, rx) = std::sync::mpsc::channel::<(i32, u64)>();
            let mut dm = DbusMenu::new(ms);
            dm.set_event_sender(tx);
            (Some(dm), Some(rx))
        },
        None => (None, None),
    };
    let mut signals: Vec<Signal> = Vec::new();
    signals.push(Signal::NewIcon);
    Ok(
        KdeTrayIconImpl {
            dbus_menu,
            item,
            last_xdg_activation_token: None,
            on_click: builder.on_click,
            on_double_click: builder.on_double_click,
            on_right_click: builder.on_right_click,
            sender,
            signals,
            menu_event_receiver: menu_rx,
            notifier_receiver: Some(nrx),
        },
    )
}

impl KdeTrayIconImpl {
    /// Replace the served icon and queue the icon-changed signal. The
    /// replacement either fully applies or, as here is proved, always
    /// applies: the call cannot fail or tear the state.
    pub fn set_icon(&mut self, icon: &Icon) -> (r: Result<(), Error>)
        ensures
            r == Ok::<(), Error>(()),
            final(self)@ == (KdeTrayView {
                item: ItemView {
                    icon: IconDataView {
                        buffer: icon@.sys.argb_pixels,
                        width: icon@.sys.width,
                        height: icon@.sys.height,
                    },
                    ..old(self)@.item
                },
                signals: old(self)@.signals.push(Signal::NewIcon),
                ..old(self)@
            }),
    {
        let icon_data = IconData {
            buffer: match &icon.sys.argb_pixels {
                Some(p) => Some(clone_bytes(p)),
                None => None,
            },
            width: icon.sys.width,
            height: icon.sys.height,
        };
        self.item.set_icon_data(icon_data);
        self.signals.push(Signal::NewIcon);
        Ok(())
    }

    /// Replace the served menu: assign fresh wire ids to `menu`, swap the
    /// adapter's tree atomically (the next generation), and queue the
    /// layout-updated signal for the whole tree. An existing adapter keeps
    /// its event sink; without one, a fresh adapter without a sink is
    /// installed.
    pub fn set_menu(&mut self, menu: &MenuBuilder) -> (r: Result<(), Error>)
        requires
            seq_size(menu@) <= i32::MAX,
        ensures
            ({
                let items = convert_nodes(menu@, 0);
                let rev: u32 = match old(self)@.menu {
                    Some(dm) => if dm.revision < u32::MAX {
                        (dm.revision + 1) as u32
                    } else {
                        u32::MAX
                    },
                    None => 1u32,
                };
                let hs = match old(self)@.menu {
                    Some(dm) => dm.has_sender,
                    None => false,
                };
                r == Ok::<(), Error>(()) && final(self)@ == (KdeTrayView {
                    menu: Some(
                        DbusMenuView {
                            items,
                            table: table_of_seq(items),
                            revision: rev,
                            has_sender: hs,
                        },
                    ),
                    signals: old(self)@.signals.push(Signal::LayoutUpdated(rev, 0)),
                    ..old(self)@
                })
            }),
    {
        let ms = match build_menu(menu) {
            Ok(m) => m,
            Err(e) => {
                return Err(e);
            },
        };
        match &mut self.dbus_menu {
            Some(dm) => {
                let (rev, parent) = dm.set_menu(ms);
                self.signals.push(Signal::LayoutUpdated(rev, parent));
            },
            None => {
                let dm = DbusMenu::new(ms);
                self.dbus_menu = Some(dm);
                self.signals.push(Signal::LayoutUpdated(1, 0));
            },
        }
        Ok(())
    }

    /// Replace the served tooltip and queue the tooltip-changed signal.
    pub fn set_tooltip(&mut self, tooltip: &str) -> (r: Result<(), Error>)
        ensures
            r == Ok::<(), Error>(()),
            final(self)@ == (KdeTrayView {
                item: ItemView { tooltip: tooltip@, ..old(self)@.item },
                signals: old(self)@.signals.push(Signal::NewToolTip),
                ..old(self)@
            }),
    {
        self.item.set_tooltip(tooltip.to_owned());
        self.signals.push(Signal::NewToolTip);
        Ok(())
    }

    /// Replace the served title and queue the title-changed signal.
    pub fn set_title(&mut self, title: &str) -> (r: Result<(), Error>)
        ensures
            r == Ok::<(), Error>(()),
            final(self)@ == (KdeTrayView {
                item: ItemView { title: title@, ..old(self)@.item },
                signals: old(self)@.signals.push(Signal::NewTitle),
                ..old(self)@
            }),
    {
        self.item.set_title(title.to_owned());
        self.signals.push(Signal::NewTitle);
        Ok(())
    }

    /// Replace the served status and queue the status-changed signal.
    pub fn set_status(&mut self, status: TrayIconStatus) -> (r: Result<(), Error>)
        ensures
            r == Ok::<(), Error>(()),
            final(self)@ == (KdeTrayView {
                item: ItemView { status, ..old(self)@.item },
                signals: old(self)@.signals.push(Signal::NewStatus(status)),
                ..old(self)@
            }),
    {
        self.item.set_status(status);
        self.signals.push(Signal::NewStatus(status));
        Ok(())
    }

    /// Nothing to do on this platform: the host opens the menu itself.
    pub fn show_menu(&mut self) -> (r: Result<(), Error>)
        ensures
            r == Ok::<(), Error>(()),
            final(self)@ == old(self)@,
    {
        Ok(())
    }

    /// The most recent activation token the host handed over, if any.
    pub fn get_xdg_activation_token(&self) -> (r: Option<String>)
        ensures
            ({
                match r {
                    Some(t) => self@.token == Some(t@),
                    None => self@.token is None,
                }
            }),
    {
        match &self.last_xdg_activation_token {
            Some(t) => Some(t.clone()),
            None => None,
        }
    }

    /// Route one raw host activation: an activation of the icon itself
    /// delivers the configured click event to the application's sink; a
    /// token hint replaces the cached token; everything else is dropped.
    /// Returns the event that was delivered, if any.
    pub fn route_notifier_event(&mut self, ev: StatusNotifierEvent) -> (r: Option<u64>)
        ensures
            ({
                match ev {
                    StatusNotifierEvent::Activate(_, _) => r == old(self)@.on_click && final(self)@
                        == old(self)@,
                    StatusNotifierEvent::ProvideXdgActivationToken(t) => r is None && final(self)@
                        == (KdeTrayView { token: Some(t@), ..old(self)@ }),
                    _ => r is None && final(self)@ == old(self)@,
                }
            }),
    {
        match ev {
            StatusNotifierEvent::Activate(_, _) => {
                match self.on_click {
                    Some(e) => {
                        self.sender.send(&e);
                        Some(e)
                    },
                    None => None,
                }
            },
            StatusNotifierEvent::ProvideXdgActivationToken(t) => {
                self.last_xdg_activation_token = Some(t);
                None
            },
            _ => None,
        }
    }

    /// Hand out the queued change signals, oldest first, leaving the
    /// queue empty.
    pub fn take_signals(&mut self) -> (r: Vec<Signal>)
        ensures
            r@ == old(self)@.signals,
            final(self)@ == (KdeTrayView { signals: Seq::empty(), ..old(self)@ }),
    {
        let mut v: Vec<Signal> = Vec::new();
        core::mem::swap(&mut self.signals, &mut v);
        v
    }

    /// Replace the served item identity (the unique bus name).
    pub fn set_service_id(&mut self, id: String)
        ensures
            final(self)@ == (KdeTrayView {
                item: ItemView { id: id@, ..old(self)@.item },
                ..old(self)@
            }),
    {
        self.item.id = id;
    }

    /// Take the receiving end of the menu-activation channel, if it is
    /// still here; the viewed state does not change.
    pub fn take_menu_event_receiver(&mut self) -> (r: Option<std::sync::mpsc::Receiver<(i32, u64)>>)
        ensures
            final(self)@ == old(self)@,
    {
        let mut x: Option<std::sync::mpsc::Receiver<(i32, u64)>> = None;
        core::mem::swap(&mut self.menu_event_receiver, &mut x);
        x
    }

    /// Take the receiving end of the raw-activation channel, if it is
    /// still here; the viewed state does not change.
    pub fn take_notifier_receiver(&mut self) -> (r: Option<
        std::sync::mpsc::Receiver<StatusNotifierEvent>,
    >)
        ensures
            final(self)@ == old(self)@,
    {
        let mut x: Option<std::sync::mpsc::Receiver<StatusNotifierEvent>> = None;
        core::mem::swap(&mut self.notifier_receiver, &mut x);
        x
    }
}

/// The decimal spelling of a number.
pub open spec fn dec_str(n: int) -> Seq<char>
    decreases n,
{
    if n < 10 {
        seq![digit_char(n)]
    } else {
        dec_str(n / 10) + seq![digit_char(n % 10)]
    }
}

/// The digit character for one decimal digit.
pub open spec fn digit_char(d: int) -> char {
    ((48 + d) as u8) as char
}

/// Append the decimal spelling of `n`.
fn push_dec(n: u32, out: &mut String)
    ensures
        final(out)@ == old(out)@ + dec_str(n as int),
    decreases n,
{
    let ghost pre = out@;
    if n >= 10 {
        push_dec(n / 10, out);
    }
    let d = n % 10;
    let ds: &str = if d == 0 {
        "0"
    } else if d == 1 {
        "1"
    } else if d == 2 {
        "2"
    } else if d == 3 {
        "3"
    } else if d == 4 {
        "4"
    } else if d == 5 {
        "5"
    } else if d == 6 {
        "6"
    } else if d == 7 {
        "7"
    } else if d == 8 {
        "8"
    } else {
        "9"
    };
    proof {
        reveal_strlit("0");
        reveal_strlit("1");
        reveal_strlit("2");
        reveal_strlit("3");
        reveal_strlit("4");
        reveal_strlit("5");
        reveal_strlit("6");
        reveal_strlit("7");
        reveal_strlit("8");
        reveal_strlit("9");
        assert(ds@ == seq![digit_char(d as int)]);
    }
    out.append(ds);
    proof {
        if n >= 10 {
            assert(dec_str(n as int) == dec_str(n as int / 10) + seq![digit_char(n as int % 10)]);
            assert(out@ =~= pre + dec_str(n as int));
        } else {
            assert(dec_str(n as int) == seq![digit_char(n as int)]);
            assert(out@ =~= pre + dec_str(n as int));
        }
    }
}

/// The unique well-known bus name for this process's tray item, derived
/// from the process id.
pub fn service_name(pid: u32) -> (r: String)
    ensures
        r@ == "org.kde.StatusNotifierItem-"@ + dec_str(pid as int) + "-1"@,
{
    let mut s = "org.kde.StatusNotifierItem-".to_owned();
    push_dec(pid, &mut s);
    s.append("-1");
    s
}

} // verus!
