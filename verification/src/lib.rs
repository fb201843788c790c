//! A tray-icon library: a typed menu tree built by the application, a
//! deterministic wire-id assignment over that tree, a layout adapter that
//! answers subtree queries from a desktop host, and routing of host
//! activation events back to typed application events.

mod channel;
mod dbusmenu;
mod icon;
mod kdetrayicon;
mod menusys;
mod notifieritem;
mod menubuilder;
mod trayicon;
mod trayiconbuilder;
mod trayiconsender;
mod wchar;

pub use crate::dbusmenu::{DbusMenu, Layout, PropValue};
pub use crate::icon::{Icon, KdeIcon};
pub use crate::kdetrayicon::{build_trayicon, service_name, KdeTrayIconImpl, Signal};
pub use crate::menubuilder::{MenuBuilder, MenuItem};
pub use crate::menusys::{build_menu, IdTable, MenuItemData, MenuSys};
pub use crate::trayicon::TrayIcon;
pub use crate::notifieritem::{IconData, StatusNotifierEvent, StatusNotifierItemImpl, TrayIconStatus};
pub use crate::trayiconbuilder::{Error, TrayIconBuilder};
pub use crate::trayiconsender::TrayIconSender;
pub use crate::wchar::{wchar, wchar_array};
