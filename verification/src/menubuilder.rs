use vstd::prelude::*;

use crate::icon::{Icon, IconView};
use crate::trayiconbuilder::Error;

verus! {

/// One node of a menu tree. `id` is an application-supplied event
/// identifier: the library never interprets it, it only carries it back to
/// the application when the host activates the node. Separators never carry
/// one; submenus may.
#[derive(Debug)]
pub enum MenuItem {
    Separator,
    Item { id: u64, name: String, disabled: bool, icon: Option<Icon> },
    Checkable { id: u64, name: String, is_checked: bool, disabled: bool, icon: Option<Icon> },
    Submenu { id: Option<u64>, name: String, children: MenuBuilder, disabled: bool, icon: Option<Icon> },
}

/// Ghost mirror of [`MenuItem`].
#[verifier::ext_equal]
pub enum MenuNodeView {
    Separator,
    Item { id: u64, name: Seq<char>, disabled: bool, icon: Option<IconView> },
    Checkable { id: u64, name: Seq<char>, is_checked: bool, disabled: bool, icon: Option<IconView> },
    Submenu { id: Option<u64>, name: Seq<char>, children: Seq<MenuNodeView>, disabled: bool, icon: Option<IconView> },
}

/// An ordered menu tree under construction; insertion order is display
/// order.
#[derive(Debug)]
pub struct MenuBuilder {
    pub menu_items: Vec<MenuItem>,
}

pub open spec fn opt_icon_view(i: Option<Icon>) -> Option<IconView> {
    match i {
        Some(ic) => Some(ic@),
        None => None,
    }
}

pub open spec fn node_view(m: MenuItem) -> MenuNodeView
    decreases m,
{
    match m {
        MenuItem::Separator => MenuNodeView::Separator,
        MenuItem::Item { id, name, disabled, icon } => MenuNodeView::Item {
            id,
            name: name@,
            disabled,
            icon: opt_icon_view(icon),
        },
        MenuItem::Checkable { id, name, is_checked, disabled, icon } => MenuNodeView::Checkable {
            id,
            name: name@,
            is_checked,
            disabled,
            icon: opt_icon_view(icon),
        },
        MenuItem::Submenu { id, name, children, disabled, icon } => MenuNodeView::Submenu {
            id,
            name: name@,
            children: nodes_view(children.menu_items@),
            disabled,
            icon: opt_icon_view(icon),
        },
    }
}

pub open spec fn nodes_view(s: Seq<MenuItem>) -> Seq<MenuNodeView>
    decreases s,
{
    if s.len() == 0 {
        Seq::empty()
    } else {
        seq![node_view(s[0])] + nodes_view(s.drop_first())
    }
}

/// `nodes_view` maps the sequence element by element.
pub proof fn lemma_nodes_view(s: Seq<MenuItem>)
    ensures
        nodes_view(s).len() == s.len(),
        forall|i: int| 0 <= i < s.len() ==> nodes_view(s)[i] == node_view(s[i]),
    decreases s,
{
    if s.len() > 0 {
        lemma_nodes_view(s.drop_first());
    }
}

/// Deep copy of one node; the copy has the same view.
fn clone_item(m: &MenuItem) -> (r: MenuItem)
    ensures
        r@ == m@,
    decreases *m,
{
    match m {
        MenuItem::Separator => MenuItem::Separator,
        MenuItem::Item { id, name, disabled, icon } => MenuItem::Item {
            id: *id,
            name: name.clone(),
            disabled: *disabled,
            icon: clone_opt_icon(icon),
        },
        MenuItem::Checkable { id, name, is_checked, disabled, icon } => MenuItem::Checkable {
            id: *id,
            name: name.clone(),
            is_checked: *is_checked,
            disabled: *disabled,
            icon: clone_opt_icon(icon),
        },
        MenuItem::Submenu { id, name, children, disabled, icon } => MenuItem::Submenu {
            id: *id,
            name: name.clone(),
            children: MenuBuilder { menu_items: clone_items(&children.menu_items) },
            disabled: *disabled,
            icon: clone_opt_icon(icon),
        },
    }
}

/// Deep copy of a node list; the copy has the same view.
fn clone_items(v: &Vec<MenuItem>) -> (r: Vec<MenuItem>)
    ensures
        nodes_view(r@) == nodes_view(v@),
        r@.len() == v@.len(),
    decreases v@,
{
    let mut out: Vec<MenuItem> = Vec::new();
    let n = v.len();
    let mut i: usize = 0;
    while i < n
        invariant
            n == v@.len(),
            i <= n,
            out@.len() == i,
            forall|k: int| 0 <= k < i ==> node_view(out@[k]) == node_view(v@[k]),
        decreases n - i,
    {
        let c = clone_item(&v[i]);
        out.push(c);
        i += 1;
    }
    proof {
        lemma_nodes_view(out@);
        lemma_nodes_view(v@);
        assert(nodes_view(out@) =~= nodes_view(v@));
    }
    out
}

/// Copy an optional icon; the copy has the same view.
fn clone_opt_icon(i: &Option<Icon>) -> (r: Option<Icon>)
    ensures
        opt_icon_view(r) == opt_icon_view(*i),
{
    match i {
        Some(ic) => Some(ic.clone()),
        None => None,
    }
}

impl Clone for MenuItem {
    /// Cloning keeps the whole node, children included.
    fn clone(&self) -> (r: MenuItem)
        ensures
            r@ == self@,
    {
        clone_item(self)
    }
}

impl Clone for MenuBuilder {
    /// Cloning keeps the whole tree.
    fn clone(&self) -> (r: MenuBuilder)
        ensures
            r@ == self@,
    {
        MenuBuilder { menu_items: clone_items(&self.menu_items) }
    }
}

impl View for MenuItem {
    type V = MenuNodeView;

    open spec fn view(&self) -> MenuNodeView {
        node_view(*self)
    }
}

impl View for MenuBuilder {
    type V = Seq<MenuNodeView>;

    open spec fn view(&self) -> Seq<MenuNodeView> {
        nodes_view(self.menu_items@)
    }
}

impl Default for MenuBuilder {
    fn default() -> (r: MenuBuilder)
        ensures
            r@ == Seq::<MenuNodeView>::empty(),
    {
        MenuBuilder { menu_items: Vec::new() }
    }
}

impl MenuBuilder {
    /// An empty menu.
    pub fn new() -> (r: MenuBuilder)
        ensures
            r@ == Seq::<MenuNodeView>::empty(),
    {
        MenuBuilder { menu_items: Vec::new() }
    }

    /// Apply `f` to the builder; lets a caller include items conditionally
    /// in one fluent chain.
    pub fn when<F: FnOnce(MenuBuilder) -> MenuBuilder>(self, f: F) -> (r: MenuBuilder)
        requires
            f.requires((self,)),
        ensures
            f.ensures((self,), r),
    {
        f(self)
    }

    /// Append one already-built item.
    pub fn with(self, item: MenuItem) -> (r: MenuBuilder)
        ensures
            r@ == self@.push(item@),
    {
        let mut items = self.menu_items;
        let ghost pre = items@;
        items.push(item);
        proof {
            lemma_nodes_view_push(pre, item);
        }
        MenuBuilder { menu_items: items }
    }

    /// Append a separator.
    pub fn separator(self) -> (r: MenuBuilder)
        ensures
            r@ == self@.push(MenuNodeView::Separator),
    {
        self.with(MenuItem::Separator)
    }

    /// Append a plain item.
    pub fn item(self, name: &str, id: u64) -> (r: MenuBuilder)
        ensures
            r@ == self@.push(
                MenuNodeView::Item { id, name: name@, disabled: false, icon: None },
            ),
    {
        self.with(MenuItem::Item { id, name: name.to_owned(), disabled: false, icon: None })
    }

    /// Append a checkable item.
    pub fn checkable(self, name: &str, is_checked: bool, id: u64) -> (r: MenuBuilder)
        ensures
            r@ == self@.push(
                MenuNodeView::Checkable { id, name: name@, is_checked, disabled: false, icon: None },
            ),
    {
        self.with(
            MenuItem::Checkable { id, name: name.to_owned(), is_checked, disabled: false, icon: None },
        )
    }

    /// Append a submenu holding `menu` as its children.
    pub fn submenu(self, name: &str, menu: MenuBuilder) -> (r: MenuBuilder)
        ensures
            r@ == self@.push(
                MenuNodeView::Submenu {
                    id: None,
                    name: name@,
                    children: menu@,
                    disabled: false,
                    icon: None,
                },
            ),
    {
        self.with(
            MenuItem::Submenu {
                id: None,
                name: name.to_owned(),
                children: menu,
                disabled: false,
                icon: None,
            },
        )
    }
    /// Checked flag of the first depth-first node carrying `find_id`, if
    /// that node is checkable; the tree is left as it was.
    pub fn get_checkable(&mut self, find_id: u64) -> (r: Option<bool>)
        ensures
            final(self)@ == old(self)@,
            r == ({
                match find_first(old(self)@, find_id) {
                    Some(MenuNodeView::Checkable { is_checked, .. }) => Some(is_checked),
                    _ => None::<bool>,
                }
            }),
    {
        let mut v: Vec<MenuItem> = Vec::new();
        core::mem::swap(&mut self.menu_items, &mut v);
        let (v2, st) = get_checked_vec(v, find_id);
        self.menu_items = v2;
        match st {
            FindStatus::Checked(b) => Some(b),
            _ => None,
        }
    }

    /// Set the checked flag of the first depth-first node carrying `id`.
    /// `MenuItemNotFound` reports that no node carries `id`, or that the
    /// first one carrying it is not checkable; the tree is then unchanged.
    pub fn set_checkable(&mut self, id: u64, checked: bool) -> (r: Result<(), Error>)
        ensures
            ({
                let m = mutate_first(old(self)@, id, set_checked_op(checked));
                match m {
                    Mutated::Done(t) => r == Ok::<(), Error>(()) && final(self)@ == t,
                    _ => r == Err::<(), Error>(Error::MenuItemNotFound) && final(self)@ == old(
                        self,
                    )@,
                }
            }),
    {
        let mut v: Vec<MenuItem> = Vec::new();
        core::mem::swap(&mut self.menu_items, &mut v);
        let (v2, st) = set_checked_vec(v, id, checked);
        self.menu_items = v2;
        match st {
            WalkStatus::Done => Ok(()),
            _ => Err(Error::MenuItemNotFound),
        }
    }

    /// Set the disabled flag of the first depth-first node carrying `id`.
    /// `MenuItemNotFound` reports that no node carries `id`; the tree is
    /// then unchanged.
    pub fn set_disabled(&mut self, id: u64, disabled: bool) -> (r: Result<(), Error>)
        ensures
            ({
                let m = mutate_first(old(self)@, id, set_disabled_op(disabled));
                match m {
                    Mutated::Done(t) => r == Ok::<(), Error>(()) && final(self)@ == t,
                    _ => r == Err::<(), Error>(Error::MenuItemNotFound) && final(self)@ == old(
                        self,
                    )@,
                }
            }),
    {
        let mut v: Vec<MenuItem> = Vec::new();
        core::mem::swap(&mut self.menu_items, &mut v);
        let (v2, st) = set_disabled_vec(v, id, disabled);
        self.menu_items = v2;
        match st {
            WalkStatus::Done => Ok(()),
            _ => Err(Error::MenuItemNotFound),
        }
    }

}

/// The number of nodes in a subtree rooted at `n`, the node itself included.
pub open spec fn node_size(n: MenuNodeView) -> int
    decreases n,
{
    match n {
        MenuNodeView::Submenu { children, .. } => 1 + seq_size(children),
        _ => 1,
    }
}

/// The number of nodes in a forest, all levels included.
pub open spec fn seq_size(s: Seq<MenuNodeView>) -> int
    decreases s,
{
    if s.len() == 0 {
        0
    } else {
        node_size(s[0]) + seq_size(s.drop_first())
    }
}

pub proof fn lemma_size_pos(s: Seq<MenuNodeView>)
    ensures
        seq_size(s) >= s.len(),
        forall|i: int| 0 <= i < s.len() ==> #[trigger] node_size(s[i]) >= 1,
        forall|i: int| 0 <= i < s.len() ==> #[trigger] node_size(s[i]) <= seq_size(s),
    decreases s,
{
    if s.len() > 0 {
        lemma_size_pos(s.drop_first());
        lemma_node_size_pos(s[0]);
        assert forall|i: int| 0 <= i < s.len() implies #[trigger] node_size(s[i]) >= 1
            && node_size(s[i]) <= seq_size(s) by {
            if i > 0 {
                assert(s.drop_first()[i - 1] == s[i]);
            }
        }
    }
}

pub proof fn lemma_node_size_pos(n: MenuNodeView)
    ensures
        node_size(n) >= 1,
    decreases n,
{
    match n {
        MenuNodeView::Submenu { children, .. } => {
            lemma_size_pos(children);
        },
        _ => {},
    }
}

/// Does the node itself carry the event id `find`?
pub open spec fn node_matches(n: MenuNodeView, find: u64) -> bool {
    match n {
        MenuNodeView::Separator => false,
        MenuNodeView::Item { id, .. } => id == find,
        MenuNodeView::Checkable { id, .. } => id == find,
        MenuNodeView::Submenu { id, .. } => id == Some(find),
    }
}

/// The first node carrying `find` in the subtree rooted at `n`, in
/// depth-first order: the node itself before its children.
pub open spec fn find_one(n: MenuNodeView, find: u64) -> Option<MenuNodeView>
    decreases n, 1int,
{
    if node_matches(n, find) {
        Some(n)
    } else {
        match n {
            MenuNodeView::Submenu { children, .. } => find_first(children, find),
            _ => None,
        }
    }
}

/// The first node carrying `find` in the forest `s`, in depth-first order:
/// earlier roots (and everything below them) before later roots.
pub open spec fn find_first(s: Seq<MenuNodeView>, find: u64) -> Option<MenuNodeView>
    decreases s, 0int,
{
    if s.len() == 0 {
        None
    } else {
        match find_one(s[0], find) {
            Some(n) => Some(n),
            None => find_first(s.drop_first(), find),
        }
    }
}

/// Outcome of a mutate-by-event-id walk: the mutated tree, a refusal (the
/// first match was a node the operation does not apply to), or no match at
/// all.
pub enum Mutated<A> {
    Done(A),
    Refused,
    Absent,
}

/// Mutate the first match for `find` inside the subtree rooted at `n`:
/// apply `op` to the node itself when its id matches, else walk its
/// children. `op` returning `None` refuses the match; the walk stops either
/// way.
pub open spec fn mutate_one(
    n: MenuNodeView,
    find: u64,
    op: spec_fn(MenuNodeView) -> Option<MenuNodeView>,
) -> Mutated<MenuNodeView>
    decreases n, 1int,
{
    if node_matches(n, find) {
        match op(n) {
            Some(n2) => Mutated::Done(n2),
            None => Mutated::Refused,
        }
    } else {
        match n {
            MenuNodeView::Submenu { id, name, children, disabled, icon } => {
                match mutate_first(children, find, op) {
                    Mutated::Done(cs) => Mutated::Done(
                        MenuNodeView::Submenu { id, name, children: cs, disabled, icon },
                    ),
                    Mutated::Refused => Mutated::Refused,
                    Mutated::Absent => Mutated::Absent,
                }
            },
            _ => Mutated::Absent,
        }
    }
}

/// Mutate the first match for `find` in the forest `s`, in depth-first
/// order.
pub open spec fn mutate_first(
    s: Seq<MenuNodeView>,
    find: u64,
    op: spec_fn(MenuNodeView) -> Option<MenuNodeView>,
) -> Mutated<Seq<MenuNodeView>>
    decreases s, 0int,
{
    if s.len() == 0 {
        Mutated::Absent
    } else {
        match mutate_one(s[0], find, op) {
            Mutated::Done(n2) => Mutated::Done(s.update(0, n2)),
            Mutated::Refused => Mutated::Refused,
            Mutated::Absent => match mutate_first(s.drop_first(), find, op) {
                Mutated::Done(t) => Mutated::Done(seq![s[0]] + t),
                Mutated::Refused => Mutated::Refused,
                Mutated::Absent => Mutated::Absent,
            },
        }
    }
}

/// What `set_checkable` does to the first match: flips the stored flag of a
/// checkable item, refuses every other kind.
pub open spec fn set_checked_op(v: bool) -> spec_fn(MenuNodeView) -> Option<MenuNodeView> {
    |n: MenuNodeView|
        match n {
            MenuNodeView::Checkable { id, name, is_checked, disabled, icon } => Some(
                MenuNodeView::Checkable { id, name, is_checked: v, disabled, icon },
            ),
            _ => None,
        }
}

/// What `set_disabled` does to the first match: sets the disabled flag of
/// any node that can carry one, refuses a separator.
pub open spec fn set_disabled_op(v: bool) -> spec_fn(MenuNodeView) -> Option<MenuNodeView> {
    |n: MenuNodeView|
        match n {
            MenuNodeView::Item { id, name, disabled, icon } => Some(
                MenuNodeView::Item { id, name, disabled: v, icon },
            ),
            MenuNodeView::Checkable { id, name, is_checked, disabled, icon } => Some(
                MenuNodeView::Checkable { id, name, is_checked, disabled: v, icon },
            ),
            MenuNodeView::Submenu { id, name, children, disabled, icon } => Some(
                MenuNodeView::Submenu { id, name, children, disabled: v, icon },
            ),
            MenuNodeView::Separator => None,
        }
}

/// Walk result of an in-place mutation pass.
enum WalkStatus {
    Done,
    Refused,
    Absent,
}

/// Walk result of a read-only search for a checkable item.
enum FindStatus {
    Checked(bool),
    Other,
    Absent,
}

/// After removing the head, the remaining views are the tail of the whole.
proof fn lemma_view_after_remove(s: Seq<MenuItem>)
    requires
        s.len() > 0,
    ensures
        nodes_view(s.remove(0)) == nodes_view(s).drop_first(),
        nodes_view(s).len() == s.len(),
        nodes_view(s)[0] == node_view(s[0]),
{
    lemma_nodes_view(s);
    assert(s.remove(0) =~= s.drop_first());
    assert(nodes_view(s).drop_first() =~= nodes_view(s.drop_first()));
}

/// Re-inserting a head in front prepends its view.
proof fn lemma_view_after_insert(t: Seq<MenuItem>, x: MenuItem)
    ensures
        nodes_view(t.insert(0, x)) == seq![node_view(x)] + nodes_view(t),
{
    let s = t.insert(0, x);
    assert(s.len() == t.len() + 1);
    assert(s[0] == x);
    assert(s.drop_first() =~= t);
    assert(nodes_view(s) == seq![node_view(s[0])] + nodes_view(s.drop_first()));
}

/// Put a (possibly rewritten) head node back in front of its siblings.
fn reattach(items: Vec<MenuItem>, head: MenuItem) -> (r: Vec<MenuItem>)
    ensures
        nodes_view(r@) == seq![node_view(head)] + nodes_view(items@),
        r@.len() == items@.len() + 1,
{
    let mut items = items;
    let ghost pre = items@;
    let ghost hv = node_view(head);
    items.insert(0, head);
    proof {
        lemma_view_after_insert(pre, items@[0]);
        assert(items@ == pre.insert(0, items@[0]));
        lemma_nodes_view(pre);
    }
    items
}

/// Apply the `set_checkable` mutation to the first depth-first match.
fn set_checked_vec(items: Vec<MenuItem>, find: u64, v: bool) -> (r: (Vec<MenuItem>, WalkStatus))
    ensures
        ({
            let m = mutate_first(nodes_view(items@), find, set_checked_op(v));
            match m {
                Mutated::Done(t) => r.1 is Done && nodes_view(r.0@) == t,
                Mutated::Refused => r.1 is Refused && nodes_view(r.0@) == nodes_view(items@),
                Mutated::Absent => r.1 is Absent && nodes_view(r.0@) == nodes_view(items@),
            }
        }),
    decreases seq_size(nodes_view(items@)), 1int,
{
    let ghost full = nodes_view(items@);
    let mut items = items;
    if items.len() == 0 {
        return (items, WalkStatus::Absent);
    }
    proof {
        lemma_view_after_remove(items@);
        lemma_size_pos(full);
        lemma_node_size_pos(full[0]);
        lemma_size_pos(full.drop_first());
    }
    let ghost tail_views = full.drop_first();
    let head = items.remove(0);
    let ghost hv = node_view(head);
    proof {
        assert(hv == full[0]);
        assert(nodes_view(items@) == tail_views);
        assert(seq_size(tail_views) == seq_size(full) - node_size(full[0]));
    }
    match head {
        MenuItem::Separator => {
            let items = reattach(items, MenuItem::Separator);
            proof {
                assert(nodes_view(items@) =~= full);
            }
            tail_step(items, find, v, Ghost(full))
        },
        MenuItem::Item { id, name, disabled, icon } => {
            let matched = id == find;
            let items = reattach(items, MenuItem::Item { id, name, disabled, icon });
            proof {
                assert(nodes_view(items@) =~= full);
            }
            if matched {
                (items, WalkStatus::Refused)
            } else {
                tail_step(items, find, v, Ghost(full))
            }
        },
        MenuItem::Checkable { id, name, is_checked, disabled, icon } => {
            if id == find {
                let head2 = MenuItem::Checkable { id, name, is_checked: v, disabled, icon };
                let ghost n2 = node_view(head2);
                let items = reattach(items, head2);
                proof {
                    assert(nodes_view(items@) =~= full.update(0, n2));
                }
                (items, WalkStatus::Done)
            } else {
                let items = reattach(
                    items,
                    MenuItem::Checkable { id, name, is_checked, disabled, icon },
                );
                proof {
                    assert(nodes_view(items@) =~= full);
                }
                tail_step(items, find, v, Ghost(full))
            }
        },
        MenuItem::Submenu { id, name, children, disabled, icon } => {
            let matched = match &id {
                Some(x) => *x == find,
                None => false,
            };
            if matched {
                let items = reattach(items, MenuItem::Submenu { id, name, children, disabled, icon });
                proof {
                    assert(nodes_view(items@) =~= full);
                }
                (items, WalkStatus::Refused)
            } else {
                let MenuBuilder { menu_items } = children;
                proof {
                    assert(node_size(hv) == 1 + seq_size(nodes_view(menu_items@)));
                }
                let (cvec, cst) = set_checked_vec(menu_items, find, v);
                let head2 = MenuItem::Submenu {
                    id,
                    name,
                    children: MenuBuilder { menu_items: cvec },
                    disabled,
                    icon,
                };
                let ghost h2v = node_view(head2);
                let items = reattach(items, head2);
                match cst {
                    WalkStatus::Done => {
                        proof {
                            assert(nodes_view(items@) =~= full.update(0, h2v));
                        }
                        (items, WalkStatus::Done)
                    },
                    WalkStatus::Refused => {
                        proof {
                            assert(h2v =~= full[0]);
                            assert(nodes_view(items@) =~= full);
                        }
                        (items, WalkStatus::Refused)
                    },
                    WalkStatus::Absent => {
                        proof {
                            assert(h2v =~= full[0]);
                            assert(nodes_view(items@) =~= full);
                        }
                        tail_step(items, find, v, Ghost(full))
                    },
                }
            }
        },
    }
}

/// Walk the remaining siblings once the head is known not to hold the
/// first match.
fn tail_step(items: Vec<MenuItem>, find: u64, v: bool, Ghost(full): Ghost<Seq<MenuNodeView>>) -> (r:
    (Vec<MenuItem>, WalkStatus))
    requires
        items@.len() > 0,
        nodes_view(items@) == full,
        mutate_one(full[0], find, set_checked_op(v)) is Absent,
    ensures
        ({
            let m = mutate_first(full, find, set_checked_op(v));
            match m {
                Mutated::Done(t) => r.1 is Done && nodes_view(r.0@) == t,
                Mutated::Refused => r.1 is Refused && nodes_view(r.0@) == full,
                Mutated::Absent => r.1 is Absent && nodes_view(r.0@) == full,
            }
        }),
    decreases seq_size(full), 0int,
{
    proof {
        lemma_view_after_remove(items@);
        lemma_size_pos(full);
        lemma_node_size_pos(full[0]);
    }
    let mut items = items;
    let head = items.remove(0);
    proof {
        assert(node_view(head) == full[0]);
        assert(nodes_view(items@) == full.drop_first());
        assert(seq_size(full.drop_first()) == seq_size(full) - node_size(full[0]));
    }
    let (rest, st) = set_checked_vec(items, find, v);
    let ghost t = nodes_view(rest@);
    let rest = reattach(rest, head);
    match st {
        WalkStatus::Done => {
            proof {
                assert(nodes_view(rest@) == seq![full[0]] + t);
            }
            (rest, WalkStatus::Done)
        },
        WalkStatus::Refused => {
            proof {
                assert(nodes_view(rest@) =~= full);
            }
            (rest, WalkStatus::Refused)
        },
        WalkStatus::Absent => {
            proof {
                assert(nodes_view(rest@) =~= full);
            }
            (rest, WalkStatus::Absent)
        },
    }
}

/// Apply the `set_disabled` mutation to the first depth-first match.
fn set_disabled_vec(items: Vec<MenuItem>, find: u64, v: bool) -> (r: (Vec<MenuItem>, WalkStatus))
    ensures
        ({
            let m = mutate_first(nodes_view(items@), find, set_disabled_op(v));
            match m {
                Mutated::Done(t) => r.1 is Done && nodes_view(r.0@) == t,
                Mutated::Refused => r.1 is Refused && nodes_view(r.0@) == nodes_view(items@),
                Mutated::Absent => r.1 is Absent && nodes_view(r.0@) == nodes_view(items@),
            }
        }),
    decreases seq_size(nodes_view(items@)), 1int,
{
    let ghost full = nodes_view(items@);
    let mut items = items;
    if items.len() == 0 {
        return (items, WalkStatus::Absent);
    }
    proof {
        lemma_view_after_remove(items@);
        lemma_size_pos(full);
        lemma_node_size_pos(full[0]);
        lemma_size_pos(full.drop_first());
    }
    let ghost tail_views = full.drop_first();
    let head = items.remove(0);
    let ghost hv = node_view(head);
    proof {
        assert(hv == full[0]);
        assert(nodes_view(items@) == tail_views);
        assert(seq_size(tail_views) == seq_size(full) - node_size(full[0]));
    }
    match head {
        MenuItem::Separator => {
            let items = reattach(items, MenuItem::Separator);
            proof {
                assert(nodes_view(items@) =~= full);
            }
            tail_step_disabled(items, find, v, Ghost(full))
        },
        MenuItem::Item { id, name, disabled, icon } => {
            if id == find {
                let head2 = MenuItem::Item { id, name, disabled: v, icon };
                let ghost n2 = node_view(head2);
                let items = reattach(items, head2);
                proof {
                    assert(nodes_view(items@) =~= full.update(0, n2));
                }
                (items, WalkStatus::Done)
            } else {
                let items = reattach(items, MenuItem::Item { id, name, disabled, icon });
                proof {
                    assert(nodes_view(items@) =~= full);
                }
                tail_step_disabled(items, find, v, Ghost(full))
            }
        },
        MenuItem::Checkable { id, name, is_checked, disabled, icon } => {
            if id == find {
                let head2 = MenuItem::Checkable { id, name, is_checked, disabled: v, icon };
                let ghost n2 = node_view(head2);
                let items = reattach(items, head2);
                proof {
                    assert(nodes_view(items@) =~= full.update(0, n2));
                }
                (items, WalkStatus::Done)
            } else {
                let items = reattach(
                    items,
                    MenuItem::Checkable { id, name, is_checked, disabled, icon },
                );
                proof {
                    assert(nodes_view(items@) =~= full);
                }
                tail_step_disabled(items, find, v, Ghost(full))
            }
        },
        MenuItem::Submenu { id, name, children, disabled, icon } => {
            let matched = match &id {
                Some(x) => *x == find,
                None => false,
            };
            if matched {
                let head2 = MenuItem::Submenu { id, name, children, disabled: v, icon };
                let ghost n2 = node_view(head2);
                let items = reattach(items, head2);
                proof {
                    assert(nodes_view(items@) =~= full.update(0, n2));
                }
                (items, WalkStatus::Done)
            } else {
                let MenuBuilder { menu_items } = children;
                proof {
                    assert(node_size(hv) == 1 + seq_size(nodes_view(menu_items@)));
                }
                let (cvec, cst) = set_disabled_vec(menu_items, find, v);
                let head2 = MenuItem::Submenu {
                    id,
                    name,
                    children: MenuBuilder { menu_items: cvec },
                    disabled,
                    icon,
                };
                let ghost h2v = node_view(head2);
                let items = reattach(items, head2);
                match cst {
                    WalkStatus::Done => {
                        proof {
                            assert(nodes_view(items@) =~= full.update(0, h2v));
                        }
                        (items, WalkStatus::Done)
                    },
                    WalkStatus::Refused => {
                        proof {
                            assert(h2v =~= full[0]);
                            assert(nodes_view(items@) =~= full);
                        }
                        (items, WalkStatus::Refused)
                    },
                    WalkStatus::Absent => {
                        proof {
                            assert(h2v =~= full[0]);
                            assert(nodes_view(items@) =~= full);
                        }
                        tail_step_disabled(items, find, v, Ghost(full))
                    },
                }
            }
        },
    }
}

/// Walk the remaining siblings for `set_disabled` once the head is known
/// not to hold the first match.
fn tail_step_disabled(
    items: Vec<MenuItem>,
    find: u64,
    v: bool,
    Ghost(full): Ghost<Seq<MenuNodeView>>,
) -> (r: (Vec<MenuItem>, WalkStatus))
    requires
        items@.len() > 0,
        nodes_view(items@) == full,
        mutate_one(full[0], find, set_disabled_op(v)) is Absent,
    ensures
        ({
            let m = mutate_first(full, find, set_disabled_op(v));
            match m {
                Mutated::Done(t) => r.1 is Done && nodes_view(r.0@) == t,
                Mutated::Refused => r.1 is Refused && nodes_view(r.0@) == full,
                Mutated::Absent => r.1 is Absent && nodes_view(r.0@) == full,
            }
        }),
    decreases seq_size(full), 0int,
{
    proof {
        lemma_view_after_remove(items@);
        lemma_size_pos(full);
        lemma_node_size_pos(full[0]);
    }
    let mut items = items;
    let head = items.remove(0);
    proof {
        assert(node_view(head) == full[0]);
        assert(nodes_view(items@) == full.drop_first());
        assert(seq_size(full.drop_first()) == seq_size(full) - node_size(full[0]));
    }
    let (rest, st) = set_disabled_vec(items, find, v);
    let ghost t = nodes_view(rest@);
    let rest = reattach(rest, head);
    match st {
        WalkStatus::Done => {
            proof {
                assert(nodes_view(rest@) == seq![full[0]] + t);
            }
            (rest, WalkStatus::Done)
        },
        WalkStatus::Refused => {
            proof {
                assert(nodes_view(rest@) =~= full);
            }
            (rest, WalkStatus::Refused)
        },
        WalkStatus::Absent => {
            proof {
                assert(nodes_view(rest@) =~= full);
            }
            (rest, WalkStatus::Absent)
        },
    }
}

/// Read the checked flag of the first depth-first match, leaving the tree
/// as it was.
fn get_checked_vec(items: Vec<MenuItem>, find: u64) -> (r: (Vec<MenuItem>, FindStatus))
    ensures
        nodes_view(r.0@) == nodes_view(items@),
        ({
            match find_first(nodes_view(items@), find) {
                Some(MenuNodeView::Checkable { is_checked, .. }) => r.1 == FindStatus::Checked(
                    is_checked,
                ),
                Some(_) => r.1 is Other,
                None => r.1 is Absent,
            }
        }),
    decreases seq_size(nodes_view(items@)), 1int,
{
    let ghost full = nodes_view(items@);
    let mut items = items;
    if items.len() == 0 {
        return (items, FindStatus::Absent);
    }
    proof {
        lemma_view_after_remove(items@);
        lemma_size_pos(full);
        lemma_node_size_pos(full[0]);
        lemma_size_pos(full.drop_first());
    }
    let ghost tail_views = full.drop_first();
    let head = items.remove(0);
    let ghost hv = node_view(head);
    proof {
        assert(hv == full[0]);
        assert(nodes_view(items@) == tail_views);
        assert(seq_size(tail_views) == seq_size(full) - node_size(full[0]));
    }
    match head {
        MenuItem::Separator => {
            let items = reattach(items, MenuItem::Separator);
            proof {
                assert(nodes_view(items@) =~= full);
            }
            tail_find(items, find, Ghost(full))
        },
        MenuItem::Item { id, name, disabled, icon } => {
            let matched = id == find;
            let items = reattach(items, MenuItem::Item { id, name, disabled, icon });
            proof {
                assert(nodes_view(items@) =~= full);
            }
            if matched {
                (items, FindStatus::Other)
            } else {
                tail_find(items, find, Ghost(full))
            }
        },
        MenuItem::Checkable { id, name, is_checked, disabled, icon } => {
            let matched = id == find;
            let checked = is_checked;
            let items = reattach(items, MenuItem::Checkable { id, name, is_checked, disabled, icon });
            proof {
                assert(nodes_view(items@) =~= full);
            }
            if matched {
                (items, FindStatus::Checked(checked))
            } else {
                tail_find(items, find, Ghost(full))
            }
        },
        MenuItem::Submenu { id, name, children, disabled, icon } => {
            let matched = match &id {
                Some(x) => *x == find,
                None => false,
            };
            if matched {
                let items = reattach(items, MenuItem::Submenu { id, name, children, disabled, icon });
                proof {
                    assert(nodes_view(items@) =~= full);
                }
                (items, FindStatus::Other)
            } else {
                let MenuBuilder { menu_items } = children;
                proof {
                    assert(node_size(hv) == 1 + seq_size(nodes_view(menu_items@)));
                }
                let (cvec, cst) = get_checked_vec(menu_items, find);
                let head2 = MenuItem::Submenu {
                    id,
                    name,
                    children: MenuBuilder { menu_items: cvec },
                    disabled,
                    icon,
                };
                let ghost h2v = node_view(head2);
                let items = reattach(items, head2);
                proof {
                    assert(h2v =~= full[0]);
                    assert(nodes_view(items@) =~= full);
                }
                match cst {
                    FindStatus::Checked(b) => (items, FindStatus::Checked(b)),
                    FindStatus::Other => (items, FindStatus::Other),
                    FindStatus::Absent => tail_find(items, find, Ghost(full)),
                }
            }
        },
    }
}

/// Search the remaining siblings once the head's subtree is known to hold
/// no match.
fn tail_find(items: Vec<MenuItem>, find: u64, Ghost(full): Ghost<Seq<MenuNodeView>>) -> (r: (
    Vec<MenuItem>,
    FindStatus,
))
    requires
        items@.len() > 0,
        nodes_view(items@) == full,
        find_one(full[0], find) is None,
    ensures
        nodes_view(r.0@) == full,
        ({
            match find_first(full, find) {
                Some(MenuNodeView::Checkable { is_checked, .. }) => r.1 == FindStatus::Checked(
                    is_checked,
                ),
                Some(_) => r.1 is Other,
                None => r.1 is Absent,
            }
        }),
    decreases seq_size(full), 0int,
{
    proof {
        lemma_view_after_remove(items@);
        lemma_size_pos(full);
        lemma_node_size_pos(full[0]);
    }
    let mut items = items;
    let head = items.remove(0);
    proof {
        assert(node_view(head) == full[0]);
        assert(nodes_view(items@) == full.drop_first());
        assert(seq_size(full.drop_first()) == seq_size(full) - node_size(full[0]));
    }
    let (rest, st) = get_checked_vec(items, find);
    let rest = reattach(rest, head);
    proof {
        assert(nodes_view(rest@) =~= full);
    }
    (rest, st)
}

/// Appending an item appends its view.
pub proof fn lemma_nodes_view_push(s: Seq<MenuItem>, x: MenuItem)
    ensures
        nodes_view(s.push(x)) == nodes_view(s).push(node_view(x)),
    decreases s,
{
    if s.len() == 0 {
        assert(s.push(x)[0] == x);
        assert(s.push(x).len() == 1);
        assert(nodes_view(s.push(x)) == seq![node_view(s.push(x)[0])] + nodes_view(
            s.push(x).drop_first(),
        ));
        assert(s.push(x).drop_first().len() == 0);
        assert(nodes_view(s.push(x).drop_first()) == Seq::<MenuNodeView>::empty());
        assert(nodes_view(s.push(x)) =~= nodes_view(s).push(node_view(x)));
    } else {
        lemma_nodes_view_push(s.drop_first(), x);
        assert(s.push(x)[0] == s[0]);
        assert(s.push(x).drop_first() =~= s.drop_first().push(x));
        assert(nodes_view(s.push(x)) == seq![node_view(s.push(x)[0])] + nodes_view(
            s.push(x).drop_first(),
        ));
        assert(nodes_view(s.push(x).drop_first()) == nodes_view(s.drop_first().push(x)));
        assert(nodes_view(s.push(x)) =~= nodes_view(s).push(node_view(x)));
    }
}


/// Law: mutating by event id is idempotent. Once `set_checkable` has set
/// the flag to `v` and produced the tree `t`, running the same mutation on
/// `t` again finds the same node first and rewrites it to itself, so the
/// tree is exactly `t` again. Together with `set_checkable`'s contract this
/// says: calling it twice with the same value leaves the tree equal to
/// calling it once.
pub proof fn lemma_set_checkable_idempotent(s: Seq<MenuNodeView>, find: u64, v: bool)
    ensures
        mutate_first(s, find, set_checked_op(v)) matches Mutated::Done(t) ==> mutate_first(
            t,
            find,
            set_checked_op(v),
        ) == Mutated::Done(t),
    decreases s, 0int,
{
    let op = set_checked_op(v);
    if s.len() > 0 {
        match mutate_first(s, find, op) {
            Mutated::Done(t) => {
                match mutate_one(s[0], find, op) {
                    Mutated::Done(n2) => {
                        lemma_set_checkable_idempotent_node(s[0], find, v);
                        assert(t == s.update(0, n2));
                        assert(t[0] == n2);
                        assert(mutate_one(t[0], find, op) == Mutated::Done::<MenuNodeView>(n2));
                        assert(t.update(0, n2) =~= t);
                    },
                    Mutated::Refused => {},
                    Mutated::Absent => {
                        let tt = match mutate_first(s.drop_first(), find, op) {
                            Mutated::Done(x) => x,
                            _ => Seq::empty(),
                        };
                        assert(t == seq![s[0]] + tt);
                        lemma_set_checkable_idempotent(s.drop_first(), find, v);
                        assert(t[0] == s[0]);
                        assert(t.drop_first() =~= tt);
                        assert(mutate_first(tt, find, op) == Mutated::Done(tt));
                        assert(seq![t[0]] + tt =~= t);
                    },
                }
            },
            _ => {},
        }
    }
}

proof fn lemma_set_checkable_idempotent_node(n: MenuNodeView, find: u64, v: bool)
    ensures
        mutate_one(n, find, set_checked_op(v)) matches Mutated::Done(n2) ==> mutate_one(
            n2,
            find,
            set_checked_op(v),
        ) == Mutated::Done(n2),
    decreases n, 1int,
{
    let op = set_checked_op(v);
    match mutate_one(n, find, op) {
        Mutated::Done(n2) => {
            if node_matches(n, find) {
                assert(op(n) == Some(n2));
                assert(node_matches(n2, find));
                assert(op(n2) == Some(n2));
            } else {
                match n {
                    MenuNodeView::Submenu { id, name, children, disabled, icon } => {
                        lemma_set_checkable_idempotent(children, find, v);
                        let cs = match mutate_first(children, find, op) {
                            Mutated::Done(x) => x,
                            _ => Seq::empty(),
                        };
                        assert(n2 == MenuNodeView::Submenu {
                            id,
                            name,
                            children: cs,
                            disabled,
                            icon,
                        });
                        assert(!node_matches(n2, find));
                        assert(mutate_first(cs, find, op) == Mutated::Done(cs));
                    },
                    _ => {},
                }
            }
        },
        _ => {},
    }
}

/// Law: a mutate-by-event-id walk reports `Absent` exactly when no node in
/// the forest carries the id, reports `Done` exactly when the first
/// depth-first match is a node the operation applies to, and reports
/// `Refused` exactly when it is not. With the mutators' contracts this
/// says: mutating a nonexistent event id returns `MenuItemNotFound` and
/// leaves the tree unchanged, and a successful mutation rewrites exactly
/// the first depth-first match.
pub proof fn lemma_mutate_first_outcome(
    s: Seq<MenuNodeView>,
    find: u64,
    op: spec_fn(MenuNodeView) -> Option<MenuNodeView>,
)
    ensures
        (mutate_first(s, find, op) is Absent) <==> (find_first(s, find) is None),
        find_first(s, find) matches Some(x) ==> ((mutate_first(s, find, op) is Done) <==> (op(x)
            is Some)),
        find_first(s, find) matches Some(x) ==> ((mutate_first(s, find, op) is Refused) <==> (op(
            x,
        ) is None)),
    decreases s, 0int,
{
    if s.len() > 0 {
        lemma_mutate_one_outcome(s[0], find, op);
        lemma_mutate_first_outcome(s.drop_first(), find, op);
    }
}

proof fn lemma_mutate_one_outcome(
    n: MenuNodeView,
    find: u64,
    op: spec_fn(MenuNodeView) -> Option<MenuNodeView>,
)
    ensures
        (mutate_one(n, find, op) is Absent) <==> (find_one(n, find) is None),
        find_one(n, find) matches Some(x) ==> ((mutate_one(n, find, op) is Done) <==> (op(x)
            is Some)),
        find_one(n, find) matches Some(x) ==> ((mutate_one(n, find, op) is Refused) <==> (op(x)
            is None)),
    decreases n, 1int,
{
    if !node_matches(n, find) {
        match n {
            MenuNodeView::Submenu { children, .. } => {
                lemma_mutate_first_outcome(children, find, op);
            },
            _ => {},
        }
    }
}


/// Does `op` only ever rewrite a node into one of the same subtree size?
pub open spec fn op_preserves_size(op: spec_fn(MenuNodeView) -> Option<MenuNodeView>) -> bool {
    forall|n: MenuNodeView, n2: MenuNodeView| op(n) == Some(n2) ==> node_size(n2) == node_size(n)
}

/// A size-preserving mutation keeps the number and arrangement of nodes:
/// the mutated forest has the same length and total size.
pub proof fn lemma_mutate_first_size(
    s: Seq<MenuNodeView>,
    find: u64,
    op: spec_fn(MenuNodeView) -> Option<MenuNodeView>,
)
    requires
        op_preserves_size(op),
    ensures
        mutate_first(s, find, op) matches Mutated::Done(t) ==> t.len() == s.len() && seq_size(t)
            == seq_size(s),
    decreases s, 0int,
{
    if s.len() > 0 {
        match mutate_first(s, find, op) {
            Mutated::Done(t) => {
                match mutate_one(s[0], find, op) {
                    Mutated::Done(n2) => {
                        lemma_mutate_one_size(s[0], find, op);
                        assert(t == s.update(0, n2));
                        assert(t[0] == n2);
                        assert(t.drop_first() =~= s.drop_first());
                        assert(seq_size(t) == node_size(n2) + seq_size(t.drop_first()));
                    },
                    Mutated::Refused => {},
                    Mutated::Absent => {
                        lemma_mutate_first_size(s.drop_first(), find, op);
                        let tt = match mutate_first(s.drop_first(), find, op) {
                            Mutated::Done(x) => x,
                            _ => Seq::empty(),
                        };
                        assert(t == seq![s[0]] + tt);
                        assert(t[0] == s[0]);
                        assert(t.drop_first() =~= tt);
                        assert(seq_size(t) == node_size(s[0]) + seq_size(tt));
                    },
                }
            },
            _ => {},
        }
    }
}

proof fn lemma_mutate_one_size(
    n: MenuNodeView,
    find: u64,
    op: spec_fn(MenuNodeView) -> Option<MenuNodeView>,
)
    requires
        op_preserves_size(op),
    ensures
        mutate_one(n, find, op) matches Mutated::Done(n2) ==> node_size(n2) == node_size(n),
    decreases n, 1int,
{
    if !node_matches(n, find) {
        match n {
            MenuNodeView::Submenu { id, name, children, disabled, icon } => {
                lemma_mutate_first_size(children, find, op);
            },
            _ => {},
        }
    }
}

/// `set_checkable` rewrites one checkable item in place: sizes are kept.
pub proof fn lemma_checked_op_preserves_size(v: bool)
    ensures
        op_preserves_size(set_checked_op(v)),
{
    let op = set_checked_op(v);
    assert forall|n: MenuNodeView, n2: MenuNodeView| op(n) == Some(n2) implies node_size(n2)
        == node_size(n) by {
        match n {
            MenuNodeView::Checkable { .. } => {
                assert(node_size(n) == 1);
                assert(node_size(n2) == 1);
            },
            _ => {},
        }
    }
}

/// `set_disabled` only flips a flag: sizes are kept.
pub proof fn lemma_disabled_op_preserves_size(v: bool)
    ensures
        op_preserves_size(set_disabled_op(v)),
{
    let op = set_disabled_op(v);
    assert forall|n: MenuNodeView, n2: MenuNodeView| op(n) == Some(n2) implies node_size(n2)
        == node_size(n) by {
        match n {
            MenuNodeView::Item { .. } => {
                assert(node_size(n) == 1);
                assert(node_size(n2) == 1);
            },
            MenuNodeView::Checkable { .. } => {
                assert(node_size(n) == 1);
                assert(node_size(n2) == 1);
            },
            MenuNodeView::Submenu { id, name, children, disabled, icon } => {
                assert(node_size(n) == 1 + seq_size(children));
                match n2 {
                    MenuNodeView::Submenu { children: c2, .. } => {
                        assert(c2 == children);
                    },
                    _ => {},
                }
            },
            MenuNodeView::Separator => {},
        }
    }
}


/// What `==` means for optional icons: both absent, or loaded from equal
/// source buffers.
pub open spec fn opt_icon_eq(a: Option<Icon>, b: Option<Icon>) -> bool {
    match (a, b) {
        (None, None) => true,
        (Some(x), Some(y)) => x@.buffer == y@.buffer,
        _ => false,
    }
}

/// What `==` means for menu nodes: same kind, same event id, same label
/// text, same flags, icons from equal buffers, and children equal in
/// order.
pub open spec fn item_eq_rel(a: MenuItem, b: MenuItem) -> bool
    decreases a, 1int,
{
    match (a, b) {
        (MenuItem::Separator, MenuItem::Separator) => true,
        (
            MenuItem::Item { id, name, disabled, icon },
            MenuItem::Item { id: id2, name: name2, disabled: disabled2, icon: icon2 },
        ) => id == id2 && name@ == name2@ && disabled == disabled2 && opt_icon_eq(icon, icon2),
        (
            MenuItem::Checkable { id, name, is_checked, disabled, icon },
            MenuItem::Checkable {
                id: id2,
                name: name2,
                is_checked: is_checked2,
                disabled: disabled2,
                icon: icon2,
            },
        ) => id == id2 && name@ == name2@ && is_checked == is_checked2 && disabled == disabled2
            && opt_icon_eq(icon, icon2),
        (
            MenuItem::Submenu { id, name, children, disabled, icon },
            MenuItem::Submenu {
                id: id2,
                name: name2,
                children: children2,
                disabled: disabled2,
                icon: icon2,
            },
        ) => id == id2 && name@ == name2@ && disabled == disabled2 && opt_icon_eq(icon, icon2)
            && items_eq_rel(children.menu_items@, children2.menu_items@),
        _ => false,
    }
}

pub open spec fn items_eq_rel(a: Seq<MenuItem>, b: Seq<MenuItem>) -> bool
    decreases a, 0int,
{
    if a.len() != b.len() {
        false
    } else if a.len() == 0 {
        true
    } else {
        item_eq_rel(a[0], b[0]) && items_eq_rel(a.drop_first(), b.drop_first())
    }
}

/// Compare two nodes structurally.
fn eq_item(a: &MenuItem, b: &MenuItem) -> (r: bool)
    ensures
        r == item_eq_rel(*a, *b),
    decreases node_size(node_view(*a)), 0int,
{
    proof {
        lemma_size_pos(nodes_view(Seq::<MenuItem>::empty()));
    }
    match (a, b) {
        (MenuItem::Separator, MenuItem::Separator) => true,
        (
            MenuItem::Item { id, name, disabled, icon },
            MenuItem::Item { id: id2, name: name2, disabled: disabled2, icon: icon2 },
        ) => *id == *id2 && *name == *name2 && *disabled == *disabled2 && *icon == *icon2,
        (
            MenuItem::Checkable { id, name, is_checked, disabled, icon },
            MenuItem::Checkable {
                id: id2,
                name: name2,
                is_checked: is_checked2,
                disabled: disabled2,
                icon: icon2,
            },
        ) => *id == *id2 && *name == *name2 && *is_checked == *is_checked2 && *disabled
            == *disabled2 && *icon == *icon2,
        (
            MenuItem::Submenu { id, name, children, disabled, icon },
            MenuItem::Submenu {
                id: id2,
                name: name2,
                children: children2,
                disabled: disabled2,
                icon: icon2,
            },
        ) => {
            proof {
                assert(node_size(node_view(*a)) == 1 + seq_size(nodes_view(children.menu_items@)));
                assert(nodes_view(children.menu_items@).skip(0) =~= nodes_view(
                    children.menu_items@,
                ));
                lemma_size_pos(nodes_view(children.menu_items@));
                assert(node_size(node_view(*a)) > seq_size(
                    nodes_view(children.menu_items@).skip(0),
                ));
            }
            let head = *id == *id2 && *name == *name2 && *disabled == *disabled2 && *icon
                == *icon2;
            proof {
                assert(children.menu_items@.skip(0) =~= children.menu_items@);
                assert(children2.menu_items@.skip(0) =~= children2.menu_items@);
            }
            if !head {
                false
            } else {
                eq_items_from(&children.menu_items, &children2.menu_items, 0)
            }
        },
        _ => false,
    }
}

/// Compare the suffixes of two node lists starting at `i`, element by
/// element.
fn eq_items_from(a: &Vec<MenuItem>, b: &Vec<MenuItem>, i: usize) -> (r: bool)
    requires
        i <= a@.len(),
        i <= b@.len(),
    ensures
        r == items_eq_rel(a@.skip(i as int), b@.skip(i as int)),
    decreases seq_size(nodes_view(a@).skip(i as int)), 1int,
{
    let ghost fa = nodes_view(a@);
    proof {
        lemma_nodes_view(a@);
        lemma_size_pos(fa.skip(i as int));
    }
    if a.len() - i != b.len() - i {
        proof {
            assert(a@.skip(i as int).len() != b@.skip(i as int).len());
        }
        return false;
    }
    if i == a.len() {
        return true;
    }
    proof {
        assert(fa.skip(i as int)[0] == fa[i as int]);
        assert(fa.skip(i as int).drop_first() =~= fa.skip(i as int + 1));
        lemma_size_pos(fa.skip(i as int + 1));
        lemma_node_size_pos(fa[i as int]);
        assert(seq_size(fa.skip(i as int)) == node_size(fa[i as int]) + seq_size(
            fa.skip(i as int + 1),
        ));
        assert(a@.skip(i as int)[0] == a@[i as int]);
        assert(b@.skip(i as int)[0] == b@[i as int]);
        assert(a@.skip(i as int).drop_first() =~= a@.skip(i as int + 1));
        assert(b@.skip(i as int).drop_first() =~= b@.skip(i as int + 1));
    }
    if !eq_item(&a[i], &b[i]) {
        return false;
    }
    eq_items_from(a, b, i + 1)
}

impl PartialEq for MenuItem {
    /// Structural equality; see `item_eq_rel`.
    fn eq(&self, other: &MenuItem) -> (r: bool) {
        eq_item(self, other)
    }
}

impl vstd::std_specs::cmp::PartialEqSpecImpl for MenuItem {
    open spec fn obeys_eq_spec() -> bool {
        true
    }

    open spec fn eq_spec(&self, other: &MenuItem) -> bool {
        item_eq_rel(*self, *other)
    }
}

impl PartialEq for MenuBuilder {
    /// Structural equality of the whole tree; see `items_eq_rel`.
    fn eq(&self, other: &MenuBuilder) -> (r: bool) {
        proof {
            assert(self.menu_items@.skip(0) =~= self.menu_items@);
            assert(other.menu_items@.skip(0) =~= other.menu_items@);
        }
        eq_items_from(&self.menu_items, &other.menu_items, 0)
    }
}

impl vstd::std_specs::cmp::PartialEqSpecImpl for MenuBuilder {
    open spec fn obeys_eq_spec() -> bool {
        true
    }

    open spec fn eq_spec(&self, other: &MenuBuilder) -> bool {
        items_eq_rel(self.menu_items@, other.menu_items@)
    }
}



/// A count clipped to what a `u64` can carry.
pub open spec fn sat64(x: int) -> int {
    if x <= u64::MAX {
        x
    } else {
        u64::MAX as int
    }
}

/// Count the nodes of one subtree, clipped to `u64`.
fn count_item(m: &MenuItem) -> (r: u64)
    ensures
        r as int == sat64(node_size(node_view(*m))),
    decreases node_size(node_view(*m)), 0int,
{
    match m {
        MenuItem::Submenu { children, .. } => {
            proof {
                assert(node_size(node_view(*m)) == 1 + seq_size(nodes_view(children.menu_items@)));
                assert(nodes_view(children.menu_items@).skip(0) =~= nodes_view(
                    children.menu_items@,
                ));
                lemma_size_pos(nodes_view(children.menu_items@));
            }
            let c = count_items_from(&children.menu_items, 0);
            if c == u64::MAX {
                u64::MAX
            } else {
                c + 1
            }
        },
        _ => 1,
    }
}

/// Count the nodes of the suffix starting at `i`, clipped to `u64`.
fn count_items_from(v: &Vec<MenuItem>, i: usize) -> (r: u64)
    requires
        i <= v@.len(),
    ensures
        r as int == sat64(seq_size(nodes_view(v@).skip(i as int))),
    decreases seq_size(nodes_view(v@).skip(i as int)), 1int,
{
    let ghost full = nodes_view(v@);
    proof {
        lemma_nodes_view(v@);
        lemma_size_pos(full.skip(i as int));
    }
    if i == v.len() {
        proof {
            assert(full.skip(i as int).len() == 0);
        }
        return 0;
    }
    proof {
        assert(full.skip(i as int)[0] == full[i as int]);
        assert(full.skip(i as int).drop_first() =~= full.skip(i as int + 1));
        lemma_size_pos(full.skip(i as int + 1));
        lemma_node_size_pos(full[i as int]);
        assert(seq_size(full.skip(i as int)) == node_size(full[i as int]) + seq_size(
            full.skip(i as int + 1),
        ));
    }
    let hc = count_item(&v[i]);
    let rc = count_items_from(v, i + 1);
    if hc > u64::MAX - rc {
        u64::MAX
    } else {
        hc + rc
    }
}

impl MenuBuilder {
    /// The number of nodes in the tree, all levels included, clipped to
    /// `u64`. Callers use it to check the wire-id bound (`i32::MAX`)
    /// before building or serving the tree: a result at most `i32::MAX` is
    /// exact.
    pub fn node_count(&self) -> (r: u64)
        ensures
            r as int == sat64(seq_size(self@)),
            r <= i32::MAX ==> seq_size(self@) == r as int,
    {
        proof {
            assert(nodes_view(self.menu_items@).skip(0) =~= nodes_view(self.menu_items@));
            lemma_size_pos(nodes_view(self.menu_items@));
        }
        count_items_from(&self.menu_items, 0)
    }
}

} // verus!
