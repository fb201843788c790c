use vstd::prelude::*;

use crate::dbusmenu::DbusMenuView;
use crate::icon::{Icon, IconView};
use crate::kdetrayicon::{build_trayicon, KdeTrayIconImpl, KdeTrayView, Signal};
use crate::menubuilder::{
    find_first, lemma_checked_op_preserves_size, lemma_disabled_op_preserves_size,
    lemma_mutate_first_size, mutate_first, seq_size, set_checked_op, set_disabled_op, MenuBuilder,
    MenuNodeView, Mutated,
};
use crate::menusys::{convert_nodes, table_of_seq};
use crate::notifieritem::{IconDataView, ItemView, TrayIconStatus};
use crate::trayiconbuilder::{BuilderView, Error, TrayIconBuilder};

verus! {

/// Ghost mirror of [`TrayIcon`].
#[verifier::ext_equal]
pub struct TrayIconView {
    pub sys: KdeTrayView,
    pub builder: BuilderView,
}

/// The revision the adapter reaches after one more tree replacement.
pub open spec fn next_revision(menu: Option<DbusMenuView>) -> u32 {
    match menu {
        Some(dm) => if dm.revision < u32::MAX {
            (dm.revision + 1) as u32
        } else {
            u32::MAX
        },
        None => 1u32,
    }
}

/// Whether an adapter for `menu` keeps an event sink after a replacement.
pub open spec fn kept_sender(menu: Option<DbusMenuView>) -> bool {
    match menu {
        Some(dm) => dm.has_sender,
        None => false,
    }
}

/// The platform state after the adapter starts serving the tree `items`.
pub open spec fn with_menu(sys: KdeTrayView, items: Seq<crate::menusys::DataView>) -> KdeTrayView {
    KdeTrayView {
        menu: Some(
            DbusMenuView {
                items,
                table: table_of_seq(items),
                revision: next_revision(sys.menu),
                has_sender: kept_sender(sys.menu),
            },
        ),
        signals: sys.signals.push(Signal::LayoutUpdated(next_revision(sys.menu), 0)),
        ..sys
    }
}

/// A tray icon sizes stay within the wire's id space.
pub open spec fn tray_wf(v: TrayIconView) -> bool {
    match v.builder.menu {
        Some(m) => seq_size(m) <= i32::MAX,
        None => true,
    }
}

/// The public tray icon: the platform state plus the builder state it was
/// made from, kept for the mutate-by-event-id conveniences.
#[derive(Debug)]
pub struct TrayIcon {
    pub sys: KdeTrayIconImpl,
    pub builder: TrayIconBuilder,
}

impl View for TrayIcon {
    type V = TrayIconView;

    open spec fn view(&self) -> TrayIconView {
        TrayIconView { sys: self.sys@, builder: self.builder@ }
    }
}

impl TrayIcon {
    /// Pair the platform state with the builder it came from.
    pub fn new(sys: KdeTrayIconImpl, builder: TrayIconBuilder) -> (r: TrayIcon)
        ensures
            r@.sys == sys@,
            r@.builder == builder@,
    {
        TrayIcon { sys, builder }
    }

    /// Set the icon if it changed: an icon equal to the current one (same
    /// source buffer) is left alone, anything else replaces the stored and
    /// the served icon and queues the icon-changed signal.
    pub fn set_icon(&mut self, icon: &Icon) -> (r: Result<(), Error>)
        ensures
            r == Ok::<(), Error>(()),
            ({
                let same = match old(self)@.builder.icon {
                    Ok(iv) => iv.buffer == icon@.buffer,
                    Err(_) => false,
                };
                if same {
                    final(self)@ == old(self)@
                } else {
                    final(self)@ == (TrayIconView {
                        builder: BuilderView { icon: Ok(icon@), ..old(self)@.builder },
                        sys: KdeTrayView {
                            item: ItemView {
                                icon: IconDataView {
                                    buffer: icon@.sys.argb_pixels,
                                    width: icon@.sys.width,
                                    height: icon@.sys.height,
                                },
                                ..old(self)@.sys.item
                            },
                            signals: old(self)@.sys.signals.push(Signal::NewIcon),
                            ..old(self)@.sys
                        },
                    })
                }
            }),
    {
        match &self.builder.icon {
            Ok(cur) => {
                if cur == icon {
                    return Ok(());
                }
            },
            Err(_) => {},
        }
        self.builder.icon = Ok(icon.clone());
        self.sys.set_icon(icon)
    }

    /// Replace the menu: the new tree is stored, assigned fresh wire ids,
    /// and served as the next generation; the layout-updated signal is
    /// queued.
    pub fn set_menu(&mut self, menu: &MenuBuilder) -> (r: Result<(), Error>)
        requires
            seq_size(menu@) <= i32::MAX,
        ensures
            r == Ok::<(), Error>(()),
            final(self)@ == (TrayIconView {
                builder: BuilderView { menu: Some(menu@), ..old(self)@.builder },
                sys: with_menu(old(self)@.sys, convert_nodes(menu@, 0)),
            }),
            tray_wf(final(self)@),
    {
        self.builder.menu = Some(menu.clone());
        self.sys.set_menu(menu)
    }

    /// Set the tooltip if it changed: text equal to the stored tooltip is
    /// left alone, anything else replaces the stored and the served text
    /// and queues the tooltip-changed signal.
    pub fn set_tooltip(&mut self, tooltip: &str) -> (r: Result<(), Error>)
        ensures
            r == Ok::<(), Error>(()),
            ({
                let same = old(self)@.builder.tooltip == Some(tooltip@);
                if same {
                    final(self)@ == old(self)@
                } else {
                    final(self)@ == (TrayIconView {
                        builder: BuilderView { tooltip: Some(tooltip@), ..old(self)@.builder },
                        sys: KdeTrayView {
                            item: ItemView { tooltip: tooltip@, ..old(self)@.sys.item },
                            signals: old(self)@.sys.signals.push(Signal::NewToolTip),
                            ..old(self)@.sys
                        },
                    })
                }
            }),
    {
        let incoming = tooltip.to_owned();
        match &self.builder.tooltip {
            Some(t) => {
                if *t == incoming {
                    return Ok(());
                }
            },
            None => {},
        }
        self.builder.tooltip = Some(incoming);
        self.sys.set_tooltip(tooltip)
    }

    /// Set the disabled flag of the first depth-first menu node carrying
    /// `id`, then serve the mutated tree as the next generation.
    /// `MenuItemNotFound` reports that no menu is set or that no node
    /// carries `id`; the stored and the served tree are then unchanged and
    /// no signal is queued.
    pub fn set_menu_item_disabled(&mut self, id: u64, disabled: bool) -> (r: Result<(), Error>)
        requires
            tray_wf(old(self)@),
        ensures
            tray_wf(final(self)@),
            ({
                match old(self)@.builder.menu {
                    None => r == Err::<(), Error>(Error::MenuItemNotFound) && final(self)@ == old(
                        self,
                    )@,
                    Some(mv) => match mutate_first(mv, id, set_disabled_op(disabled)) {
                        Mutated::Done(t) => r == Ok::<(), Error>(()) && final(self)@ == (
                        TrayIconView {
                            builder: BuilderView { menu: Some(t), ..old(self)@.builder },
                            sys: with_menu(old(self)@.sys, convert_nodes(t, 0)),
                        }),
                        _ => r == Err::<(), Error>(Error::MenuItemNotFound) && final(self)@ == old(
                            self,
                        )@,
                    },
                }
            }),
    {
        proof {
            lemma_disabled_op_preserves_size(disabled);
        }
        match &mut self.builder.menu {
            Some(m) => {
                proof {
                    lemma_mutate_first_size(m@, id, set_disabled_op(disabled));
                }
                match m.set_disabled(id, disabled) {
                    Ok(()) => {
                        let _ = self.sys.set_menu(m);
                        Ok(())
                    },
                    Err(e) => Err(e),
                }
            },
            None => Err(Error::MenuItemNotFound),
        }
    }

    /// Set the checked flag of the first depth-first menu node carrying
    /// `id`, then serve the mutated tree as the next generation.
    /// `MenuItemNotFound` reports that no menu is set, that no node
    /// carries `id`, or that the first one carrying it is not checkable;
    /// the stored and the served tree are then unchanged and no signal is
    /// queued.
    pub fn set_menu_item_checkable(&mut self, id: u64, checked: bool) -> (r: Result<(), Error>)
        requires
            tray_wf(old(self)@),
        ensures
            tray_wf(final(self)@),
            ({
                match old(self)@.builder.menu {
                    None => r == Err::<(), Error>(Error::MenuItemNotFound) && final(self)@ == old(
                        self,
                    )@,
                    Some(mv) => match mutate_first(mv, id, set_checked_op(checked)) {
                        Mutated::Done(t) => r == Ok::<(), Error>(()) && final(self)@ == (
                        TrayIconView {
                            builder: BuilderView { menu: Some(t), ..old(self)@.builder },
                            sys: with_menu(old(self)@.sys, convert_nodes(t, 0)),
                        }),
                        _ => r == Err::<(), Error>(Error::MenuItemNotFound) && final(self)@ == old(
                            self,
                        )@,
                    },
                }
            }),
    {
        proof {
            lemma_checked_op_preserves_size(checked);
        }
        match &mut self.builder.menu {
            Some(m) => {
                proof {
                    lemma_mutate_first_size(m@, id, set_checked_op(checked));
                }
                match m.set_checkable(id, checked) {
                    Ok(()) => {
                        let _ = self.sys.set_menu(m);
                        Ok(())
                    },
                    Err(e) => Err(e),
                }
            },
            None => Err(Error::MenuItemNotFound),
        }
    }

    /// The checked flag of the first depth-first menu node carrying `id`,
    /// if the menu has one and it is checkable. Nothing changes.
    pub fn get_menu_item_checkable(&mut self, id: u64) -> (r: Option<bool>)
        ensures
            final(self)@ == old(self)@,
            r == ({
                match old(self)@.builder.menu {
                    None => None::<bool>,
                    Some(mv) => match find_first(mv, id) {
                        Some(MenuNodeView::Checkable { is_checked, .. }) => Some(is_checked),
                        _ => None::<bool>,
                    },
                }
            }),
    {
        match &mut self.builder.menu {
            Some(m) => m.get_checkable(id),
            None => None,
        }
    }

    /// Ask the platform to open the menu; nothing to do here, the host
    /// opens it itself.
    pub fn show_menu(&mut self) -> (r: Result<(), Error>)
        ensures
            r == Ok::<(), Error>(()),
            final(self)@ == old(self)@,
    {
        self.sys.show_menu()
    }
}

impl TrayIconBuilder {
    /// Build the tray icon: fails with the stored icon error when the icon
    /// is missing or failed to decode, and with `SenderMissing` when no
    /// event sink was set; otherwise the platform state is constructed as
    /// [`build_trayicon`] describes and paired with this builder.
    pub fn build(self) -> (r: Result<TrayIcon, Error>)
        requires
            self@.menu matches Some(m) ==> seq_size(m) <= i32::MAX,
        ensures
            self@.icon matches Err(e) ==> r == Err::<TrayIcon, Error>(e),
            self@.icon is Ok && !self@.has_sender ==> r == Err::<TrayIcon, Error>(
                Error::SenderMissing,
            ),
            self@.icon is Ok && self@.has_sender ==> (r matches Ok(t) && t@.builder == self@
                && tray_wf(t@) && t@.sys.signals == seq![Signal::NewIcon] && (match self@.menu {
                Some(m) => t@.sys.menu matches Some(dm) && dm.items == convert_nodes(m, 0)
                    && dm.table == table_of_seq(convert_nodes(m, 0)) && dm.revision == 1,
                None => t@.sys.menu is None,
            })),
    {
        match build_trayicon(&self) {
            Ok(sys) => Ok(TrayIcon::new(sys, self)),
            Err(e) => Err(e),
        }
    }
}

} // verus!
