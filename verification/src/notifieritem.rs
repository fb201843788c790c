use vstd::prelude::*;

use crate::channel::send_on;
use crate::icon::clone_bytes;

verus! {

/// A raw activation arriving from the host for the tray icon itself (not
/// for a menu node), plus the out-of-band activation-token hint.
#[derive(Debug)]
pub enum StatusNotifierEvent {
    Activate(i32, i32),
    ContextMenu(i32, i32),
    ProvideXdgActivationToken(String),
    Scroll(i32, String),
    SecondaryActivate(i32, i32),
}

/// The tray item's visibility on the host.
#[derive(Debug, Clone, Copy, PartialEq, Eq, Structural)]
pub enum TrayIconStatus {
    Active,
    NeedsAttention,
    Passive,
}

impl TrayIconStatus {
    /// The wire spelling of the status.
    pub fn as_str(&self) -> (r: &'static str)
        ensures
            self is Active ==> r@ == "Active"@,
            self is NeedsAttention ==> r@ == "NeedsAttention"@,
            self is Passive ==> r@ == "Passive"@,
    {
        match self {
            TrayIconStatus::Active => "Active",
            TrayIconStatus::NeedsAttention => "NeedsAttention",
            TrayIconStatus::Passive => "Passive",
        }
    }
}

/// The icon pixels served to the host, already in the wire's alpha-first
/// order, with their dimensions.
#[derive(Debug)]
pub struct IconData {
    pub buffer: Option<Vec<u8>>,
    pub width: u32,
    pub height: u32,
}

/// Ghost mirror of [`IconData`].
#[verifier::ext_equal]
pub struct IconDataView {
    pub buffer: Option<Seq<u8>>,
    pub width: u32,
    pub height: u32,
}

impl View for IconData {
    type V = IconDataView;

    open spec fn view(&self) -> IconDataView {
        IconDataView {
            buffer: match self.buffer {
                Some(b) => Some(b@),
                None => None,
            },
            width: self.width,
            height: self.height,
        }
    }
}

/// A host-facing dimension: wire pixmaps carry `i32` dimensions, so an
/// oversized value saturates.
pub open spec fn wire_dim(w: u32) -> i32 {
    if w <= 0x7fff_ffff {
        w as i32
    } else {
        0x7fff_ffff
    }
}

fn to_wire_dim(w: u32) -> (r: i32)
    ensures
        r == wire_dim(w),
{
    if w <= 0x7fff_ffff {
        w as i32
    } else {
        0x7fff_ffff
    }
}

/// The placeholder pixmap served when no icon was set: a 24 by 24 square,
/// opaque, in alpha-first order.
pub open spec fn fallback_pixmap() -> Seq<u8> {
    Seq::new(2304, |k: int| if k % 4 == 0 { 255u8 } else if k % 4 == 1 { 255u8 } else { 100u8 })
}

fn build_fallback_pixmap() -> (r: Vec<u8>)
    ensures
        r@ == fallback_pixmap(),
{
    let mut p: Vec<u8> = Vec::new();
    let mut i: usize = 0;
    while i < 576
        invariant
            i <= 576,
            p@.len() == 4 * i,
            forall|k: int| 0 <= k < 4 * i ==> p@[k] == fallback_pixmap()[k],
        decreases 576 - i,
    {
        p.push(255);
        p.push(255);
        p.push(100);
        p.push(100);
        proof {
            assert((4 * i as int) % 4 == 0);
            assert((4 * i as int + 1) % 4 == 1);
            assert((4 * i as int + 2) % 4 == 2);
            assert((4 * i as int + 3) % 4 == 3);
        }
        i += 1;
    }
    proof {
        assert(p@ =~= fallback_pixmap());
    }
    p
}

/// Ghost mirror of [`StatusNotifierItemImpl`].
#[verifier::ext_equal]
pub struct ItemView {
    pub id: Seq<char>,
    pub icon: IconDataView,
    pub tooltip: Seq<char>,
    pub title: Seq<char>,
    pub status: TrayIconStatus,
    pub item_is_menu: bool,
}

/// The status-item registry: the mutable state the host reads through
/// property queries (icon, tooltip, title, status), and the channel on
/// which raw activations are forwarded. Property getters read this state
/// and nothing else; the platform glue is expected to hold the whole value
/// under one exclusive lock and to replace it wholesale.
#[derive(Debug)]
pub struct StatusNotifierItemImpl {
    pub id: String,
    pub channel_sender: std::sync::mpsc::Sender<StatusNotifierEvent>,
    pub icon_data: IconData,
    pub tooltip: String,
    pub title: String,
    pub status: TrayIconStatus,
    pub item_is_menu: bool,
}

impl View for StatusNotifierItemImpl {
    type V = ItemView;

    open spec fn view(&self) -> ItemView {
        ItemView {
            id: self.id@,
            icon: self.icon_data@,
            tooltip: self.tooltip@,
            title: self.title@,
            status: self.status,
            item_is_menu: self.item_is_menu,
        }
    }
}

impl StatusNotifierItemImpl {
    /// A fresh registry with the given identity and initial state.
    pub fn new(
        id: String,
        channel_sender: std::sync::mpsc::Sender<StatusNotifierEvent>,
        icon_data: IconData,
        tooltip: String,
        title: String,
        item_is_menu: bool,
    ) -> (r: StatusNotifierItemImpl)
        ensures
            r@.id == id@,
            r@.icon == icon_data@,
            r@.tooltip == tooltip@,
            r@.title == title@,
            r@.status == TrayIconStatus::Active,
            r@.item_is_menu == item_is_menu,
    {
        StatusNotifierItemImpl {
            id,
            channel_sender,
            icon_data,
            tooltip,
            title,
            status: TrayIconStatus::Active,
            item_is_menu,
        }
    }

    /// The host activated the icon itself (a left click).
    pub fn activate(&self, x: i32, y: i32) {
        send_on(&self.channel_sender, StatusNotifierEvent::Activate(x, y));
    }

    /// The host asked for the context menu at the given position.
    pub fn context_menu(&self, x: i32, y: i32) {
        send_on(&self.channel_sender, StatusNotifierEvent::ContextMenu(x, y));
    }

    /// The host handed over an activation token for the next activation.
    pub fn provide_xdg_activation_token(&self, token: &str) {
        send_on(
            &self.channel_sender,
            StatusNotifierEvent::ProvideXdgActivationToken(token.to_owned()),
        );
    }

    /// The host scrolled over the icon.
    pub fn scroll(&self, delta: i32, orientation: &str) {
        send_on(&self.channel_sender, StatusNotifierEvent::Scroll(delta, orientation.to_owned()));
    }

    /// The host activated the icon with the secondary button.
    pub fn secondary_activate(&self, x: i32, y: i32) {
        send_on(&self.channel_sender, StatusNotifierEvent::SecondaryActivate(x, y));
    }

    /// The theme icon name: empty when pixel data is set, so the host
    /// prefers the pixmap; a stock name otherwise.
    pub fn icon_name(&self) -> (r: String)
        ensures
            self@.icon.buffer is Some ==> r@ == ""@,
            self@.icon.buffer is None ==> r@ == "application-x-executable"@,
    {
        match &self.icon_data.buffer {
            Some(_) => "".to_owned(),
            None => "application-x-executable".to_owned(),
        }
    }

    /// The icon pixels as the wire pixmap list: the stored alpha-first
    /// pixels with their dimensions, or the placeholder square when no
    /// icon was set.
    pub fn icon_pixmap(&self) -> (r: Vec<(i32, i32, Vec<u8>)>)
        ensures
            r@.len() == 1,
            ({
                match self@.icon.buffer {
                    Some(b) => r@[0].0 == wire_dim(self@.icon.width) && r@[0].1 == wire_dim(
                        self@.icon.height,
                    ) && r@[0].2@ == b,
                    None => r@[0].0 == 24 && r@[0].1 == 24 && r@[0].2@ == fallback_pixmap(),
                }
            }),
    {
        let mut r: Vec<(i32, i32, Vec<u8>)> = Vec::new();
        match &self.icon_data.buffer {
            Some(b) => {
                r.push((to_wire_dim(self.icon_data.width), to_wire_dim(self.icon_data.height),
                clone_bytes(b)));
            },
            None => {
                r.push((24, 24, build_fallback_pixmap()));
            },
        }
        r
    }

    /// The item identity the host displays.
    pub fn id(&self) -> (r: String)
        ensures
            r@ == self@.id,
    {
        self.id.clone()
    }

    /// The item title.
    pub fn title(&self) -> (r: String)
        ensures
            r@ == self@.title,
    {
        self.title.clone()
    }

    /// The item status, spelled as the wire expects it.
    pub fn status(&self) -> (r: String)
        ensures
            self@.status is Active ==> r@ == "Active"@,
            self@.status is NeedsAttention ==> r@ == "NeedsAttention"@,
            self@.status is Passive ==> r@ == "Passive"@,
    {
        self.status.as_str().to_owned()
    }

    /// Whether the item stands only for its menu.
    pub fn item_is_menu(&self) -> (r: bool)
        ensures
            r == self@.item_is_menu,
    {
        self.item_is_menu
    }

    /// The object path under which the menu is served.
    pub fn menu(&self) -> (r: String)
        ensures
            r@ == "/MenuBar"@,
    {
        "/MenuBar".to_owned()
    }

    /// The tooltip in its wire shape: no tooltip icon, the text as the
    /// title field, nothing else.
    pub fn tool_tip(&self) -> (r: (String, Vec<(i32, i32, Vec<u8>)>, String, String))
        ensures
            r.0@ == ""@,
            r.1@.len() == 0,
            r.2@ == self@.tooltip,
            r.3@ == ""@,
    {
        ("".to_owned(), Vec::new(), self.tooltip.clone(), "".to_owned())
    }

    /// Replace the served icon pixels.
    pub fn set_icon_data(&mut self, icon: IconData)
        ensures
            final(self)@ == (ItemView { icon: icon@, ..old(self)@ }),
    {
        self.icon_data = icon;
    }

    /// Replace the served tooltip text.
    pub fn set_tooltip(&mut self, tooltip: String)
        ensures
            final(self)@ == (ItemView { tooltip: tooltip@, ..old(self)@ }),
    {
        self.tooltip = tooltip;
    }

    /// Replace the served title.
    pub fn set_title(&mut self, title: String)
        ensures
            final(self)@ == (ItemView { title: title@, ..old(self)@ }),
    {
        self.title = title;
    }

    /// Replace the served status.
    pub fn set_status(&mut self, status: TrayIconStatus)
        ensures
            final(self)@ == (ItemView { status, ..old(self)@ }),
    {
        self.status = status;
    }
}

} // verus!
