use vstd::prelude::*;

use crate::icon::{loaded_icon, Icon, IconView, KdeIconView};
use crate::menubuilder::{MenuBuilder, MenuNodeView};
use crate::trayiconsender::TrayIconSender;

verus! {

/// The error taxonomy of the library.
///
/// `MenuItemNotFound` is returned by the mutate-by-event-id conveniences,
/// `IconLoadingFailed` by icon decoding, `IconMissing` and `SenderMissing`
/// by `build` when a required builder field is absent, and `OsError` stands
/// for a bus or registration failure reported by the platform glue.
#[derive(Debug, Clone, Copy, PartialEq, Eq, Structural)]
pub enum Error {
    MenuItemNotFound,
    IconLoadingFailed,
    SenderMissing,
    IconMissing,
    OsError,
}

impl Error {
    /// A human-readable name for the error, in place of `Display`.
    pub fn as_str(&self) -> (r: &'static str)
        ensures
            self is MenuItemNotFound ==> r@ == "menu item not found"@,
            self is IconLoadingFailed ==> r@ == "icon loading failed"@,
            self is SenderMissing ==> r@ == "sender missing"@,
            self is IconMissing ==> r@ == "icon missing"@,
            self is OsError ==> r@ == "os error"@,
    {
        match self {
            Error::MenuItemNotFound => "menu item not found",
            Error::IconLoadingFailed => "icon loading failed",
            Error::SenderMissing => "sender missing",
            Error::IconMissing => "icon missing",
            Error::OsError => "os error",
        }
    }
}


/// Ghost mirror of [`TrayIconBuilder`].
#[verifier::ext_equal]
pub struct BuilderView {
    pub icon: Result<IconView, Error>,
    pub menu: Option<Seq<MenuNodeView>>,
    pub tooltip: Option<Seq<char>>,
    pub title: Option<Seq<char>>,
    pub on_click: Option<u64>,
    pub on_double_click: Option<u64>,
    pub on_right_click: Option<u64>,
    pub has_sender: bool,
}

/// Accumulates everything a tray icon is built from: the icon, the menu
/// tree, tooltip and title, the tray-level click events, and the
/// application's event sink.
#[derive(Debug)]
pub struct TrayIconBuilder {
    pub icon: Result<Icon, Error>,
    pub menu: Option<MenuBuilder>,
    pub tooltip: Option<String>,
    pub title: Option<String>,
    pub on_click: Option<u64>,
    pub on_double_click: Option<u64>,
    pub on_right_click: Option<u64>,
    pub sender: Option<TrayIconSender>,
}

impl View for TrayIconBuilder {
    type V = BuilderView;

    open spec fn view(&self) -> BuilderView {
        BuilderView {
            icon: match &self.icon {
                Ok(i) => Ok(i@),
                Err(e) => Err(*e),
            },
            menu: match &self.menu {
                Some(m) => Some(m@),
                None => None,
            },
            tooltip: match &self.tooltip {
                Some(t) => Some(t@),
                None => None,
            },
            title: match &self.title {
                Some(t) => Some(t@),
                None => None,
            },
            on_click: self.on_click,
            on_double_click: self.on_double_click,
            on_right_click: self.on_right_click,
            has_sender: self.sender is Some,
        }
    }
}

impl TrayIconBuilder {
    /// An empty builder: no icon yet (reported as `IconMissing` when built
    /// that way), nothing else set.
    pub fn new() -> (r: TrayIconBuilder)
        ensures
            r@ == (BuilderView {
                icon: Err(Error::IconMissing),
                menu: None,
                tooltip: None,
                title: None,
                on_click: None,
                on_double_click: None,
                on_right_click: None,
                has_sender: false,
            }),
    {
        TrayIconBuilder {
            icon: Err(Error::IconMissing),
            menu: None,
            tooltip: None,
            title: None,
            on_click: None,
            on_double_click: None,
            on_right_click: None,
            sender: None,
        }
    }

    /// Apply `f` to the builder; lets a caller set fields conditionally in
    /// one fluent chain.
    pub fn when<F: FnOnce(TrayIconBuilder) -> TrayIconBuilder>(self, f: F) -> (r: TrayIconBuilder)
        requires
            f.requires((self,)),
        ensures
            f.ensures((self,), r),
    {
        f(self)
    }

    /// Set the application's event sink.
    pub fn sender(self, sender: TrayIconSender) -> (r: TrayIconBuilder)
        ensures
            r@ == (BuilderView { has_sender: true, ..self@ }),
    {
        TrayIconBuilder { sender: Some(sender), ..self }
    }

    /// Set the tooltip.
    pub fn tooltip(self, tooltip: &str) -> (r: TrayIconBuilder)
        ensures
            r@ == (BuilderView { tooltip: Some(tooltip@), ..self@ }),
    {
        TrayIconBuilder { tooltip: Some(tooltip.to_owned()), ..self }
    }

    /// Set the event delivered when the icon itself is activated.
    pub fn on_click(self, id: u64) -> (r: TrayIconBuilder)
        ensures
            r@ == (BuilderView { on_click: Some(id), ..self@ }),
    {
        TrayIconBuilder { on_click: Some(id), ..self }
    }

    /// Set the event delivered on a double click.
    pub fn on_double_click(self, id: u64) -> (r: TrayIconBuilder)
        ensures
            r@ == (BuilderView { on_double_click: Some(id), ..self@ }),
    {
        TrayIconBuilder { on_double_click: Some(id), ..self }
    }

    /// Set the event delivered on a right click.
    pub fn on_right_click(self, id: u64) -> (r: TrayIconBuilder)
        ensures
            r@ == (BuilderView { on_right_click: Some(id), ..self@ }),
    {
        TrayIconBuilder { on_right_click: Some(id), ..self }
    }

    /// Set the icon.
    pub fn icon(self, icon: Icon) -> (r: TrayIconBuilder)
        ensures
            r@ == (BuilderView { icon: Ok(icon@), ..self@ }),
    {
        TrayIconBuilder { icon: Ok(icon), ..self }
    }

    /// Decode and set the icon from a static ICO buffer, exactly as
    /// `loaded_icon` describes; a buffer it rejects is kept as the
    /// `IconLoadingFailed` error and reported when the tray is built.
    pub fn icon_from_buffer(self, buffer: &'static [u8]) -> (r: TrayIconBuilder)
        ensures
            ({
                match r@.icon {
                    Ok(iv) => loaded_icon(buffer@) == Ok::<KdeIconView, Error>(iv.sys) && iv.sys.wf()
                        && iv.buffer == Some(buffer@),
                    Err(e) => loaded_icon(buffer@) == Err::<KdeIconView, Error>(e),
                }
            }),
            r@.menu == self@.menu,
            r@.tooltip == self@.tooltip,
            r@.title == self@.title,
            r@.on_click == self@.on_click,
            r@.on_double_click == self@.on_double_click,
            r@.on_right_click == self@.on_right_click,
            r@.has_sender == self@.has_sender,
    {
        TrayIconBuilder { icon: Icon::from_buffer(buffer, None, None), ..self }
    }

    /// Set the menu tree.
    pub fn menu(self, menu: MenuBuilder) -> (r: TrayIconBuilder)
        ensures
            r@ == (BuilderView { menu: Some(menu@), ..self@ }),
    {
        TrayIconBuilder { menu: Some(menu), ..self }
    }
}

} // verus!
