use vstd::prelude::*;

use crate::menusys::{
    data_size, data_view, datas_size, datas_view, lemma_data_size_pos, lemma_data_size_node_pos,
    lemma_datas_view, table_lookup, DataView, MenuItemData, MenuSys,
};
use crate::trayiconbuilder::Error;

verus! {

/// One typed property value of a layout node's property bag.
#[derive(Debug, Clone)]
pub enum PropValue {
    Text(String),
    Int(i32),
    Flag(bool),
}

/// Ghost mirror of [`PropValue`].
pub enum PropView {
    Text(Seq<char>),
    Int(i32),
    Flag(bool),
}

pub open spec fn prop_view(p: PropValue) -> PropView {
    match p {
        PropValue::Text(s) => PropView::Text(s@),
        PropValue::Int(i) => PropView::Int(i),
        PropValue::Flag(b) => PropView::Flag(b),
    }
}

/// The view of a property bag: names and values, in order.
pub open spec fn props_view(s: Seq<(String, PropValue)>) -> Seq<(Seq<char>, PropView)> {
    Seq::new(s.len(), |k: int| (s[k].0@, prop_view(s[k].1)))
}

/// One node of the wire layout: its id, its property bag, and its children.
#[derive(Debug)]
pub struct Layout {
    pub id: i32,
    pub properties: Vec<(String, PropValue)>,
    pub children: Vec<Layout>,
}

/// Ghost mirror of [`Layout`].
#[verifier::ext_equal]
pub struct LayoutView {
    pub id: int,
    pub properties: Seq<(Seq<char>, PropView)>,
    pub children: Seq<LayoutView>,
}

pub open spec fn layout_view(l: Layout) -> LayoutView
    decreases l,
{
    LayoutView {
        id: l.id as int,
        properties: props_view(l.properties@),
        children: layout_views(l.children@),
    }
}

pub open spec fn layout_views(s: Seq<Layout>) -> Seq<LayoutView>
    decreases s,
{
    if s.len() == 0 {
        Seq::empty()
    } else {
        seq![layout_view(s[0])] + layout_views(s.drop_first())
    }
}

impl View for Layout {
    type V = LayoutView;

    open spec fn view(&self) -> LayoutView {
        layout_view(*self)
    }
}

/// The property bag the wire expects for one node. A separator carries
/// only its marker. Every other node carries its label and an explicit
/// enabled flag; a checkable node also carries the toggle pair, and a node
/// with children the submenu marker.
pub open spec fn props_of(d: DataView) -> Seq<(Seq<char>, PropView)> {
    if d.is_separator {
        seq![("type"@, PropView::Text("separator"@))]
    } else {
        seq![("label"@, PropView::Text(d.label)), ("enabled"@, PropView::Flag(!d.is_disabled))] + (
        if d.is_checkable {
            seq![
                ("toggle-type"@, PropView::Text("checkbox"@)),
                ("toggle-state"@, PropView::Int(if d.is_checked { 1int as i32 } else { 0int as i32 })),
            ]
        } else {
            Seq::empty()
        }) + (if d.children.len() > 0 {
            seq![("children-display"@, PropView::Text("submenu"@))]
        } else {
            Seq::empty()
        })
    }
}

/// The layout subtree served for one annotated node.
pub open spec fn layout_of_node(d: DataView) -> LayoutView
    decreases d,
{
    LayoutView { id: d.id, properties: props_of(d), children: layouts_of(d.children) }
}

pub open spec fn layouts_of(ds: Seq<DataView>) -> Seq<LayoutView>
    decreases ds,
{
    if ds.len() == 0 {
        Seq::empty()
    } else {
        seq![layout_of_node(ds[0])] + layouts_of(ds.drop_first())
    }
}

/// `layouts_of` maps the forest element by element.
pub proof fn lemma_layouts_of(ds: Seq<DataView>)
    ensures
        layouts_of(ds).len() == ds.len(),
        forall|i: int| 0 <= i < ds.len() ==> layouts_of(ds)[i] == layout_of_node(ds[i]),
    decreases ds,
{
    if ds.len() > 0 {
        lemma_layouts_of(ds.drop_first());
    }
}

/// The first node with wire id `target`, in depth-first order.
pub open spec fn find_data(ds: Seq<DataView>, target: int) -> Option<DataView>
    decreases ds, 0int,
{
    if ds.len() == 0 {
        None
    } else {
        match find_in_data(ds[0], target) {
            Some(d) => Some(d),
            None => find_data(ds.drop_first(), target),
        }
    }
}

pub open spec fn find_in_data(d: DataView, target: int) -> Option<DataView>
    decreases d, 1int,
{
    if d.id == target {
        Some(d)
    } else {
        find_data(d.children, target)
    }
}

/// What `get_layout` answers for `parent`: the synthetic root id 0 serves
/// the whole forest; any other id serves the children of the node carrying
/// it, searched depth-first; an unknown id has no answer.
pub open spec fn layout_answer(items: Seq<DataView>, parent: int) -> Option<LayoutView> {
    if parent == 0 {
        Some(LayoutView { id: 0, properties: Seq::empty(), children: layouts_of(items) })
    } else {
        match find_data(items, parent) {
            Some(d) => Some(
                LayoutView { id: parent, properties: Seq::empty(), children: layouts_of(d.children) },
            ),
            None => None,
        }
    }
}

/// Find the node with wire id `target` among the suffix of `items`
/// starting at `i`, then below later siblings, depth-first.
fn find_node_from(items: &Vec<MenuItemData>, i: usize, target: i32) -> (r: Option<&MenuItemData>)
    requires
        i <= items@.len(),
    ensures
        ({
            let f = find_data(datas_view(items@).skip(i as int), target as int);
            match f {
                Some(dv) => r matches Some(d) && d@ == dv,
                None => r is None,
            }
        }),
    decreases datas_size(datas_view(items@).skip(i as int)), 1int,
{
    let ghost full = datas_view(items@);
    proof {
        lemma_datas_view(items@);
        lemma_data_size_pos(full.skip(i as int));
    }
    if i == items.len() {
        return None;
    }
    proof {
        assert(full.skip(i as int)[0] == full[i as int]);
        assert(full.skip(i as int).drop_first() =~= full.skip(i as int + 1));
        lemma_data_size_pos(full.skip(i as int + 1));
        lemma_data_size_node_pos(full[i as int]);
        assert(datas_size(full.skip(i as int)) == data_size(full[i as int]) + datas_size(
            full.skip(i as int + 1),
        ));
    }
    let d = &items[i];
    match find_in_node(d, target) {
        Some(found) => Some(found),
        None => find_node_from(items, i + 1, target),
    }
}

/// Find the node with wire id `target` in the subtree rooted at `d`.
fn find_in_node(d: &MenuItemData, target: i32) -> (r: Option<&MenuItemData>)
    ensures
        ({
            let f = find_in_data(d@, target as int);
            match f {
                Some(dv) => r matches Some(x) && x@ == dv,
                None => r is None,
            }
        }),
    decreases data_size(d@), 0int,
{
    proof {
        lemma_data_size_pos(d@.children);
    }
    if d.id == target {
        Some(d)
    } else {
        proof {
            assert(datas_view(d.children@).skip(0) =~= datas_view(d.children@));
        }
        find_node_from(&d.children, 0, target)
    }
}

/// Serialize one annotated node into its wire layout subtree.
#[verifier::loop_isolation(false)]
fn node_to_layout(d: &MenuItemData) -> (l: Layout)
    ensures
        l@ == layout_of_node(d@),
    decreases data_size(d@), 0int,
{
    proof {
        lemma_data_size_pos(d@.children);
    }
    let mut props: Vec<(String, PropValue)> = Vec::new();
    if d.is_separator {
        props.push(("type".to_owned(), PropValue::Text("separator".to_owned())));
    } else {
        props.push(("label".to_owned(), PropValue::Text(d.label.clone())));
        props.push(("enabled".to_owned(), PropValue::Flag(!d.is_disabled)));
        if d.is_checkable {
            props.push(("toggle-type".to_owned(), PropValue::Text("checkbox".to_owned())));
            props.push((
                "toggle-state".to_owned(),
                PropValue::Int(if d.is_checked { 1 } else { 0 }),
            ));
        }
        if d.children.len() > 0 {
            props.push(("children-display".to_owned(), PropValue::Text("submenu".to_owned())));
        }
    }
    let children = children_to_layouts(&d.children);
    let l = Layout { id: d.id, properties: props, children };
    proof {
        assert(props_view(l.properties@) =~= props_of(d@));
        assert(l@ =~= layout_of_node(d@));
    }
    l
}

/// Serialize an annotated forest into wire layout subtrees, in order.
#[verifier::loop_isolation(false)]
fn children_to_layouts(items: &Vec<MenuItemData>) -> (r: Vec<Layout>)
    ensures
        layout_views(r@) == layouts_of(datas_view(items@)),
    decreases datas_size(datas_view(items@)), 1int,
{
    let ghost full = datas_view(items@);
    proof {
        lemma_datas_view(items@);
        lemma_data_size_pos(full);
        lemma_layouts_of(full);
    }
    let n = items.len();
    let mut out: Vec<Layout> = Vec::new();
    let mut i: usize = 0;
    while i < n
        invariant
            n == items@.len(),
            i <= n,
            out@.len() == i,
            forall|k: int| 0 <= k < i ==> layout_view(#[trigger] out@[k]) == layout_of_node(
                full[k],
            ),
        decreases n - i,
    {
        proof {
            assert(data_size(full[i as int]) <= datas_size(full));
        }
        let l = node_to_layout(&items[i]);
        out.push(l);
        i += 1;
    }
    proof {
        lemma_layout_views(out@);
        assert(layout_views(out@) =~= layouts_of(full));
    }
    out
}

/// `layout_views` maps the list element by element.
proof fn lemma_layout_views(s: Seq<Layout>)
    ensures
        layout_views(s).len() == s.len(),
        forall|i: int| 0 <= i < s.len() ==> layout_views(s)[i] == layout_view(s[i]),
    decreases s,
{
    if s.len() > 0 {
        lemma_layout_views(s.drop_first());
    }
}

/// Ghost mirror of [`DbusMenu`].
#[verifier::ext_equal]
pub struct DbusMenuView {
    pub items: Seq<DataView>,
    pub table: Seq<(int, u64)>,
    pub revision: u32,
    pub has_sender: bool,
}

/// The protocol adapter: serves layout queries against one atomic snapshot
/// of the annotated tree, routes activation events through the id table,
/// and counts tree generations in `revision`.
#[derive(Debug)]
pub struct DbusMenu {
    pub menu: MenuSys,
    pub revision: u32,
    pub event_sender: Option<std::sync::mpsc::Sender<(i32, u64)>>,
}

impl View for DbusMenu {
    type V = DbusMenuView;

    open spec fn view(&self) -> DbusMenuView {
        DbusMenuView {
            items: self.menu@.items,
            table: self.menu@.table,
            revision: self.revision,
            has_sender: self.event_sender is Some,
        }
    }
}

impl DbusMenu {
    /// Serve the given tree as generation 1, with no event sink yet.
    pub fn new(menu_sys: MenuSys) -> (r: DbusMenu)
        ensures
            r@.items == menu_sys@.items,
            r@.table == menu_sys@.table,
            r@.revision == 1,
            !r@.has_sender,
    {
        DbusMenu { menu: menu_sys, revision: 1, event_sender: None }
    }

    /// Attach the channel on which resolved activations are delivered.
    pub fn set_event_sender(&mut self, s: std::sync::mpsc::Sender<(i32, u64)>)
        ensures
            final(self)@ == (DbusMenuView { has_sender: true, ..old(self)@ }),
    {
        self.event_sender = Some(s);
    }

    /// Answer a layout query for `parent_id` against the current tree
    /// snapshot: id 0 serves the whole tree, any other id the children of
    /// the node carrying it; an unknown id is refused. The recursion depth
    /// and property-name filter of the wire call are accepted and ignored:
    /// the full subtree with every property is served.
    pub fn get_layout(
        &self,
        parent_id: i32,
        _recursion_depth: i32,
        _property_names: Vec<String>,
    ) -> (r: Result<(u32, Layout), Error>)
        ensures
            ({
                let a = layout_answer(self@.items, parent_id as int);
                match a {
                    Some(lv) => r matches Ok(p) && p.0 == self@.revision && p.1@ == lv,
                    None => r == Err::<(u32, Layout), Error>(Error::MenuItemNotFound),
                }
            }),
    {
        if parent_id == 0 {
            let children = children_to_layouts(&self.menu.items);
            let l = Layout { id: 0, properties: Vec::new(), children };
            proof {
                assert(props_view(l.properties@) =~= Seq::<(Seq<char>, PropView)>::empty());
                assert(l@ =~= layout_answer(self@.items, parent_id as int).unwrap());
            }
            Ok((self.revision, l))
        } else {
            proof {
                assert(datas_view(self.menu.items@).skip(0) =~= datas_view(self.menu.items@));
            }
            match find_node_from(&self.menu.items, 0, parent_id) {
                Some(d) => {
                    let children = children_to_layouts(&d.children);
                    let l = Layout { id: parent_id, properties: Vec::new(), children };
                    proof {
                        assert(props_view(l.properties@) =~= Seq::<(Seq<char>, PropView)>::empty());
                        assert(l@ =~= layout_answer(self@.items, parent_id as int).unwrap());
                    }
                    Ok((self.revision, l))
                },
                None => Err(Error::MenuItemNotFound),
            }
        }
    }

    /// Atomically replace the served tree with the next generation and
    /// return the `(revision, parent)` pair for the layout-updated signal:
    /// parent 0 says the whole tree changed. The revision grows by one per
    /// replacement until the counter's top, where it stays.
    pub fn set_menu(&mut self, menu_sys: MenuSys) -> (r: (u32, i32))
        ensures
            final(self)@.items == menu_sys@.items,
            final(self)@.table == menu_sys@.table,
            final(self)@.revision == (if old(self)@.revision < u32::MAX {
                old(self)@.revision + 1
            } else {
                u32::MAX as int
            }),
            final(self)@.has_sender == old(self)@.has_sender,
            r.0 == final(self)@.revision,
            r.1 == 0,
    {
        self.menu = menu_sys;
        if self.revision < u32::MAX {
            self.revision = self.revision + 1;
        }
        (self.revision, 0)
    }

    /// Route one wire event: a "clicked" event is resolved against the id
    /// table and, when an application event id is recorded for the wire id
    /// and a sink is attached, delivered there; anything unresolved is
    /// silently dropped. Returns what was resolved.
    pub fn event(&self, id: i32, event_id: String, _timestamp: u32) -> (r: Option<u64>)
        ensures
            r == (if event_id@ == "clicked"@ {
                table_lookup(self@.table, id as int)
            } else {
                None::<u64>
            }),
    {
        if event_id == "clicked".to_owned() {
            match self.menu.table.lookup(id) {
                Some(e) => {
                    match &self.event_sender {
                        Some(s) => {
                            crate::channel::send_on(s, (id, e));
                        },
                        None => {},
                    }
                    Some(e)
                },
                None => None,
            }
        } else {
            None
        }
    }
}


/// Is `d` one of the nodes of the forest `ds`, at any depth?
pub open spec fn contains_node(ds: Seq<DataView>, d: DataView) -> bool
    decreases ds, 0int,
{
    if ds.len() == 0 {
        false
    } else {
        in_subtree(ds[0], d) || contains_node(ds.drop_first(), d)
    }
}

/// Is `d` the node `n` itself or one of its descendants?
pub open spec fn in_subtree(n: DataView, d: DataView) -> bool
    decreases n, 1int,
{
    n == d || contains_node(n.children, d)
}

/// Every node of the tree assigned from counter `j` carries an id in
/// `j + 1 ..= j + seq_size(s)`.
pub proof fn lemma_contains_id_in_range(s: Seq<crate::menubuilder::MenuNodeView>, j: int, d: DataView)
    requires
        contains_node(crate::menusys::convert_nodes(s, j), d),
    ensures
        j < d.id <= j + crate::menubuilder::seq_size(s),
    decreases s, 0int,
{
    crate::menubuilder::lemma_size_pos(s);
    let ds = crate::menusys::convert_nodes(s, j);
    assert(s.len() > 0);
    assert(ds[0] == crate::menusys::convert_node(s[0], j));
    assert(ds.drop_first() =~= crate::menusys::convert_nodes(
        s.drop_first(),
        j + crate::menubuilder::node_size(s[0]),
    ));
    if in_subtree(ds[0], d) {
        lemma_in_subtree_id_in_range(s[0], j, d);
    } else {
        lemma_contains_id_in_range(s.drop_first(), j + crate::menubuilder::node_size(s[0]), d);
        crate::menubuilder::lemma_node_size_pos(s[0]);
    }
}

proof fn lemma_in_subtree_id_in_range(n: crate::menubuilder::MenuNodeView, j: int, d: DataView)
    requires
        in_subtree(crate::menusys::convert_node(n, j), d),
    ensures
        j < d.id <= j + crate::menubuilder::node_size(n),
    decreases n, 1int,
{
    crate::menubuilder::lemma_node_size_pos(n);
    let c = crate::menusys::convert_node(n, j);
    if c == d {
    } else {
        assert(contains_node(c.children, d));
        match n {
            crate::menubuilder::MenuNodeView::Submenu { children, .. } => {
                assert(c.children == crate::menusys::convert_nodes(children, j + 1));
                lemma_contains_id_in_range(children, j + 1, d);
            },
            _ => {
                assert(c.children.len() == 0);
            },
        }
    }
}

/// A query for an id outside the assigned range finds nothing.
pub proof fn lemma_find_out_of_range(s: Seq<crate::menubuilder::MenuNodeView>, j: int, t: int)
    requires
        t <= j || t > j + crate::menubuilder::seq_size(s),
    ensures
        find_data(crate::menusys::convert_nodes(s, j), t) is None,
    decreases s, 0int,
{
    crate::menubuilder::lemma_size_pos(s);
    let ds = crate::menusys::convert_nodes(s, j);
    if s.len() > 0 {
        assert(ds[0] == crate::menusys::convert_node(s[0], j));
        assert(ds.drop_first() =~= crate::menusys::convert_nodes(
            s.drop_first(),
            j + crate::menubuilder::node_size(s[0]),
        ));
        crate::menubuilder::lemma_node_size_pos(s[0]);
        lemma_find_in_out_of_range(s[0], j, t);
        lemma_find_out_of_range(s.drop_first(), j + crate::menubuilder::node_size(s[0]), t);
    }
}

proof fn lemma_find_in_out_of_range(n: crate::menubuilder::MenuNodeView, j: int, t: int)
    requires
        t <= j || t > j + crate::menubuilder::node_size(n),
    ensures
        find_in_data(crate::menusys::convert_node(n, j), t) is None,
    decreases n, 1int,
{
    crate::menubuilder::lemma_node_size_pos(n);
    let c = crate::menusys::convert_node(n, j);
    assert(c.id == j + 1);
    match n {
        crate::menubuilder::MenuNodeView::Submenu { children, .. } => {
            assert(c.children == crate::menusys::convert_nodes(children, j + 1));
            lemma_find_out_of_range(children, j + 1, t);
        },
        _ => {
            assert(c.children.len() == 0);
        },
    }
}

/// In an assigned tree, querying any contained node's id finds exactly
/// that node: ids are unique, and the depth-first search cannot stop at
/// any other node.
pub proof fn lemma_find_contained(s: Seq<crate::menubuilder::MenuNodeView>, j: int, d: DataView)
    requires
        contains_node(crate::menusys::convert_nodes(s, j), d),
    ensures
        find_data(crate::menusys::convert_nodes(s, j), d.id) == Some(d),
    decreases s, 0int,
{
    crate::menubuilder::lemma_size_pos(s);
    let ds = crate::menusys::convert_nodes(s, j);
    assert(s.len() > 0);
    assert(ds[0] == crate::menusys::convert_node(s[0], j));
    assert(ds.drop_first() =~= crate::menusys::convert_nodes(
        s.drop_first(),
        j + crate::menubuilder::node_size(s[0]),
    ));
    crate::menubuilder::lemma_node_size_pos(s[0]);
    if in_subtree(ds[0], d) {
        lemma_find_in_contained(s[0], j, d);
    } else {
        lemma_contains_id_in_range(s.drop_first(), j + crate::menubuilder::node_size(s[0]), d);
        lemma_find_in_out_of_range(s[0], j, d.id);
        lemma_find_contained(s.drop_first(), j + crate::menubuilder::node_size(s[0]), d);
    }
}

proof fn lemma_find_in_contained(n: crate::menubuilder::MenuNodeView, j: int, d: DataView)
    requires
        in_subtree(crate::menusys::convert_node(n, j), d),
    ensures
        find_in_data(crate::menusys::convert_node(n, j), d.id) == Some(d),
    decreases n, 1int,
{
    crate::menubuilder::lemma_node_size_pos(n);
    let c = crate::menusys::convert_node(n, j);
    if c == d {
    } else {
        assert(contains_node(c.children, d));
        match n {
            crate::menubuilder::MenuNodeView::Submenu { children, .. } => {
                assert(c.children == crate::menusys::convert_nodes(children, j + 1));
                lemma_contains_id_in_range(children, j + 1, d);
                assert(d.id != c.id);
                lemma_find_contained(children, j + 1, d);
            },
            _ => {
                assert(c.children.len() == 0);
            },
        }
    }
}

/// Does the annotated node `d` show the menu node `n`: same kind, same
/// label, same flags, same event id, and children likewise, in order?
pub open spec fn reflects(d: DataView, n: crate::menubuilder::MenuNodeView) -> bool
    decreases n, 1int,
{
    match n {
        crate::menubuilder::MenuNodeView::Separator => d.is_separator && d.event_id is None
            && d.children.len() == 0,
        crate::menubuilder::MenuNodeView::Item { id, name, disabled, .. } => !d.is_separator
            && !d.is_checkable && d.label == name && d.is_disabled == disabled && d.event_id
            == Some(id) && d.children.len() == 0,
        crate::menubuilder::MenuNodeView::Checkable { id, name, is_checked, disabled, .. } => !d.is_separator
            && d.is_checkable && d.label == name && d.is_checked == is_checked && d.is_disabled
            == disabled && d.event_id == Some(id) && d.children.len() == 0,
        crate::menubuilder::MenuNodeView::Submenu { id, name, children, disabled, .. } => !d.is_separator
            && !d.is_checkable && d.label == name && d.is_disabled == disabled && d.event_id == id
            && reflects_seq(d.children, children),
    }
}

pub open spec fn reflects_seq(ds: Seq<DataView>, s: Seq<crate::menubuilder::MenuNodeView>) -> bool
    decreases s, 0int,
{
    if s.len() == 0 {
        ds.len() == 0
    } else {
        ds.len() > 0 && reflects(ds[0], s[0]) && reflects_seq(ds.drop_first(), s.drop_first())
    }
}

/// Assigning ids changes nothing else: the annotated tree shows the menu
/// tree node for node, in order, with the same labels, flags and event
/// ids.
pub proof fn lemma_convert_reflects(s: Seq<crate::menubuilder::MenuNodeView>, j: int)
    ensures
        reflects_seq(crate::menusys::convert_nodes(s, j), s),
    decreases s, 0int,
{
    let ds = crate::menusys::convert_nodes(s, j);
    if s.len() > 0 {
        assert(ds[0] == crate::menusys::convert_node(s[0], j));
        assert(ds.drop_first() =~= crate::menusys::convert_nodes(
            s.drop_first(),
            j + crate::menubuilder::node_size(s[0]),
        ));
        lemma_convert_reflects_node(s[0], j);
        lemma_convert_reflects(s.drop_first(), j + crate::menubuilder::node_size(s[0]));
    }
}

proof fn lemma_convert_reflects_node(n: crate::menubuilder::MenuNodeView, j: int)
    ensures
        reflects(crate::menusys::convert_node(n, j), n),
    decreases n, 1int,
{
    match n {
        crate::menubuilder::MenuNodeView::Submenu { children, .. } => {
            lemma_convert_reflects(children, j + 1);
        },
        _ => {},
    }
}

/// Law: walking the annotated tree through `get_layout` reconstructs the
/// menu tree. The root query serves the annotated roots in order; querying
/// any contained node's id serves exactly that node's children; and the
/// annotated tree shows the menu tree node for node (`reflects_seq`). So
/// the recursive walk the host performs - the root first, then each
/// submenu by the id the layout reported - sees a tree isomorphic to the
/// one the application built: same order, same labels, same checked and
/// disabled flags.
pub proof fn lemma_layout_roundtrip(s: Seq<crate::menubuilder::MenuNodeView>, d: DataView)
    requires
        contains_node(crate::menusys::convert_nodes(s, 0), d),
    ensures
        layout_answer(crate::menusys::convert_nodes(s, 0), 0) == Some(
            LayoutView {
                id: 0,
                properties: Seq::empty(),
                children: layouts_of(crate::menusys::convert_nodes(s, 0)),
            },
        ),
        d.id != 0,
        layout_answer(crate::menusys::convert_nodes(s, 0), d.id) == Some(
            LayoutView { id: d.id, properties: Seq::empty(), children: layouts_of(d.children) },
        ),
        reflects_seq(crate::menusys::convert_nodes(s, 0), s),
{
    lemma_contains_id_in_range(s, 0, d);
    lemma_find_contained(s, 0, d);
    lemma_convert_reflects(s, 0);
}

/// Law: trees assigned from non-overlapping counter ranges share no wire
/// id. A layout response is computed from one tree snapshot alone
/// (`get_layout`'s contract speaks only of the served tree), and when a
/// replacement tree is assigned from a counter at or past the end of the
/// old generation's range, no id of the old generation can name a node of
/// the new one: a response can never mix nodes of two generations.
pub proof fn lemma_generations_disjoint(
    s1: Seq<crate::menubuilder::MenuNodeView>,
    j1: int,
    s2: Seq<crate::menubuilder::MenuNodeView>,
    j2: int,
    d1: DataView,
    d2: DataView,
)
    requires
        contains_node(crate::menusys::convert_nodes(s1, j1), d1),
        contains_node(crate::menusys::convert_nodes(s2, j2), d2),
        j1 + crate::menubuilder::seq_size(s1) <= j2,
    ensures
        d1.id != d2.id,
{
    lemma_contains_id_in_range(s1, j1, d1);
    lemma_contains_id_in_range(s2, j2, d2);
}


proof fn lemma_table_lookup_concat(a: Seq<(int, u64)>, b: Seq<(int, u64)>, t: int)
    ensures
        table_lookup(a + b, t) == (match table_lookup(a, t) {
            Some(e) => Some(e),
            None => table_lookup(b, t),
        }),
    decreases a,
{
    if a.len() == 0 {
        assert(a + b =~= b);
    } else {
        assert((a + b)[0] == a[0]);
        assert((a + b).drop_first() =~= a.drop_first() + b);
        lemma_table_lookup_concat(a.drop_first(), b, t);
    }
}

proof fn lemma_table_lookup_out_of_range(s: Seq<crate::menubuilder::MenuNodeView>, j: int, t: int)
    requires
        t <= j || t > j + crate::menubuilder::seq_size(s),
    ensures
        table_lookup(crate::menusys::table_of_seq(crate::menusys::convert_nodes(s, j)), t)
            is None,
    decreases s, 0int,
{
    crate::menubuilder::lemma_size_pos(s);
    let ds = crate::menusys::convert_nodes(s, j);
    if s.len() > 0 {
        assert(ds[0] == crate::menusys::convert_node(s[0], j));
        assert(ds.drop_first() =~= crate::menusys::convert_nodes(
            s.drop_first(),
            j + crate::menubuilder::node_size(s[0]),
        ));
        crate::menubuilder::lemma_node_size_pos(s[0]);
        lemma_table_lookup_concat(
            crate::menusys::table_of_node(ds[0]),
            crate::menusys::table_of_seq(ds.drop_first()),
            t,
        );
        lemma_table_lookup_node_out_of_range(s[0], j, t);
        lemma_table_lookup_out_of_range(s.drop_first(), j + crate::menubuilder::node_size(s[0]), t);
    }
}

proof fn lemma_table_lookup_node_out_of_range(
    n: crate::menubuilder::MenuNodeView,
    j: int,
    t: int,
)
    requires
        t <= j || t > j + crate::menubuilder::node_size(n),
    ensures
        table_lookup(crate::menusys::table_of_node(crate::menusys::convert_node(n, j)), t)
            is None,
    decreases n, 1int,
{
    crate::menubuilder::lemma_node_size_pos(n);
    let c = crate::menusys::convert_node(n, j);
    let own: Seq<(int, u64)> = match c.event_id {
        Some(e) => seq![(c.id, e)],
        None => Seq::empty(),
    };
    lemma_table_lookup_concat(own, crate::menusys::table_of_seq(c.children), t);
    assert(table_lookup(own, t) is None) by {
        match c.event_id {
            Some(e) => {
                assert(own[0] == (c.id, e));
                assert(own.drop_first() =~= Seq::<(int, u64)>::empty());
            },
            None => {},
        }
    }
    match n {
        crate::menubuilder::MenuNodeView::Submenu { children, .. } => {
            assert(c.children == crate::menusys::convert_nodes(children, j + 1));
            lemma_table_lookup_out_of_range(children, j + 1, t);
        },
        _ => {
            assert(c.children.len() == 0);
            assert(crate::menusys::table_of_seq(c.children) =~= Seq::<(int, u64)>::empty());
        },
    }
}

/// Law: routing agrees with the tree. On an assigned tree, looking a wire
/// id up in the flat id table returns exactly the event id of the node
/// that a depth-first search of the tree finds for it: the event id of
/// that node when it carries one, nothing when it does not or when no node
/// has the id. So an activation resolved through the table is delivered
/// for the node the host addressed, and a stale or container id is
/// silently dropped.
pub proof fn lemma_table_routes(s: Seq<crate::menubuilder::MenuNodeView>, j: int, t: int)
    ensures
        ({
            let ds = crate::menusys::convert_nodes(s, j);
            let looked = table_lookup(crate::menusys::table_of_seq(ds), t);
            match find_data(ds, t) {
                Some(d) => looked == d.event_id,
                None => looked is None,
            }
        }),
    decreases s, 0int,
{
    crate::menubuilder::lemma_size_pos(s);
    let ds = crate::menusys::convert_nodes(s, j);
    if s.len() == 0 {
    } else {
        assert(ds[0] == crate::menusys::convert_node(s[0], j));
        assert(ds.drop_first() =~= crate::menusys::convert_nodes(
            s.drop_first(),
            j + crate::menubuilder::node_size(s[0]),
        ));
        crate::menubuilder::lemma_node_size_pos(s[0]);
        lemma_table_lookup_concat(
            crate::menusys::table_of_node(ds[0]),
            crate::menusys::table_of_seq(ds.drop_first()),
            t,
        );
        lemma_table_routes_node(s[0], j, t);
        match find_in_data(ds[0], t) {
            Some(d) => {
                lemma_in_subtree_find(s[0], j, t);
                lemma_table_lookup_out_of_range(
                    s.drop_first(),
                    j + crate::menubuilder::node_size(s[0]),
                    t,
                );
            },
            None => {
                lemma_table_routes(s.drop_first(), j + crate::menubuilder::node_size(s[0]), t);
            },
        }
    }
}

/// A hit inside one subtree pins the id to that subtree's range.
proof fn lemma_in_subtree_find(n: crate::menubuilder::MenuNodeView, j: int, t: int)
    requires
        find_in_data(crate::menusys::convert_node(n, j), t) is Some,
    ensures
        j < t <= j + crate::menubuilder::node_size(n),
{
    if t <= j || t > j + crate::menubuilder::node_size(n) {
        lemma_find_in_out_of_range(n, j, t);
    }
}

proof fn lemma_table_routes_node(n: crate::menubuilder::MenuNodeView, j: int, t: int)
    ensures
        ({
            let c = crate::menusys::convert_node(n, j);
            let looked = table_lookup(crate::menusys::table_of_node(c), t);
            match find_in_data(c, t) {
                Some(d) => looked == d.event_id,
                None => looked is None,
            }
        }),
    decreases n, 1int,
{
    crate::menubuilder::lemma_node_size_pos(n);
    let c = crate::menusys::convert_node(n, j);
    let own: Seq<(int, u64)> = match c.event_id {
        Some(e) => seq![(c.id, e)],
        None => Seq::empty(),
    };
    lemma_table_lookup_concat(own, crate::menusys::table_of_seq(c.children), t);
    match c.event_id {
        Some(e) => {
            assert(own[0] == (c.id, e));
            assert(own.drop_first() =~= Seq::<(int, u64)>::empty());
        },
        None => {},
    }
    match n {
        crate::menubuilder::MenuNodeView::Submenu { children, .. } => {
            assert(c.children == crate::menusys::convert_nodes(children, j + 1));
            if t == c.id {
                lemma_table_lookup_out_of_range(children, j + 1, t);
            } else {
                lemma_table_routes(children, j + 1, t);
            }
        },
        _ => {
            assert(c.children.len() == 0);
            assert(crate::menusys::table_of_seq(c.children) =~= Seq::<(int, u64)>::empty());
        },
    }
}

} // verus!
