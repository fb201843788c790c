use vstd::prelude::*;

use crate::menubuilder::{
    lemma_nodes_view, lemma_node_size_pos, lemma_size_pos, node_size, node_view, nodes_view,
    seq_size, MenuBuilder, MenuItem, MenuNodeView,
};
use crate::trayiconbuilder::Error;

verus! {

/// One node of the id-annotated shadow tree: what the protocol adapter
/// serves to the host. `id` is the wire id; `event_id` is the application
/// identifier the node was built from, if it carried one.
#[derive(Debug)]
pub struct MenuItemData {
    pub id: i32,
    pub label: String,
    pub event_id: Option<u64>,
    pub is_separator: bool,
    pub is_checkable: bool,
    pub is_checked: bool,
    pub is_disabled: bool,
    pub children: Vec<MenuItemData>,
}

/// Ghost mirror of [`MenuItemData`].
#[verifier::ext_equal]
pub struct DataView {
    pub id: int,
    pub label: Seq<char>,
    pub event_id: Option<u64>,
    pub is_separator: bool,
    pub is_checkable: bool,
    pub is_checked: bool,
    pub is_disabled: bool,
    pub children: Seq<DataView>,
}

pub open spec fn data_view(d: MenuItemData) -> DataView
    decreases d,
{
    DataView {
        id: d.id as int,
        label: d.label@,
        event_id: d.event_id,
        is_separator: d.is_separator,
        is_checkable: d.is_checkable,
        is_checked: d.is_checked,
        is_disabled: d.is_disabled,
        children: datas_view(d.children@),
    }
}

pub open spec fn datas_view(s: Seq<MenuItemData>) -> Seq<DataView>
    decreases s,
{
    if s.len() == 0 {
        Seq::empty()
    } else {
        seq![data_view(s[0])] + datas_view(s.drop_first())
    }
}

/// `datas_view` maps the sequence element by element.
pub proof fn lemma_datas_view(s: Seq<MenuItemData>)
    ensures
        datas_view(s).len() == s.len(),
        forall|i: int| 0 <= i < s.len() ==> datas_view(s)[i] == data_view(s[i]),
    decreases s,
{
    if s.len() > 0 {
        lemma_datas_view(s.drop_first());
    }
}

impl View for MenuItemData {
    type V = DataView;

    open spec fn view(&self) -> DataView {
        data_view(*self)
    }
}

/// Assign the wire id `j + 1` to this node and consecutive ids to
/// everything below it, in pre-order.
pub open spec fn convert_node(n: MenuNodeView, j: int) -> DataView
    decreases n,
{
    match n {
        MenuNodeView::Separator => DataView {
            id: j + 1,
            label: Seq::empty(),
            event_id: None,
            is_separator: true,
            is_checkable: false,
            is_checked: false,
            is_disabled: false,
            children: Seq::empty(),
        },
        MenuNodeView::Item { id, name, disabled, .. } => DataView {
            id: j + 1,
            label: name,
            event_id: Some(id),
            is_separator: false,
            is_checkable: false,
            is_checked: false,
            is_disabled: disabled,
            children: Seq::empty(),
        },
        MenuNodeView::Checkable { id, name, is_checked, disabled, .. } => DataView {
            id: j + 1,
            label: name,
            event_id: Some(id),
            is_separator: false,
            is_checkable: true,
            is_checked,
            is_disabled: disabled,
            children: Seq::empty(),
        },
        MenuNodeView::Submenu { id, name, children, disabled, .. } => DataView {
            id: j + 1,
            label: name,
            event_id: id,
            is_separator: false,
            is_checkable: false,
            is_checked: false,
            is_disabled: disabled,
            children: convert_nodes(children, j + 1),
        },
    }
}

/// Assign ids to a forest: the first root gets `j + 1`, each later root
/// the first id after its left sibling's subtree.
pub open spec fn convert_nodes(s: Seq<MenuNodeView>, j: int) -> Seq<DataView>
    decreases s,
{
    if s.len() == 0 {
        Seq::empty()
    } else {
        seq![convert_node(s[0], j)] + convert_nodes(s.drop_first(), j + node_size(s[0]))
    }
}

/// The wire ids of an annotated forest, in pre-order.
pub open spec fn ids_of_node(d: DataView) -> Seq<int>
    decreases d,
{
    seq![d.id] + ids_of_seq(d.children)
}

pub open spec fn ids_of_seq(ds: Seq<DataView>) -> Seq<int>
    decreases ds,
{
    if ds.len() == 0 {
        Seq::empty()
    } else {
        ids_of_node(ds[0]) + ids_of_seq(ds.drop_first())
    }
}

/// The ids assigned from counter `j` are exactly the consecutive range
/// `j + 1 ..= j + seq_size(s)`, in pre-order.
pub proof fn lemma_convert_ids(s: Seq<MenuNodeView>, j: int)
    ensures
        ids_of_seq(convert_nodes(s, j)).len() == seq_size(s),
        forall|k: int|
            0 <= k < seq_size(s) ==> ids_of_seq(convert_nodes(s, j))[k] == j + 1 + k,
    decreases s, 0int,
{
    lemma_size_pos(s);
    if s.len() > 0 {
        lemma_convert_ids_node(s[0], j);
        lemma_convert_ids(s.drop_first(), j + node_size(s[0]));
        let d = convert_node(s[0], j);
        let rest = convert_nodes(s.drop_first(), j + node_size(s[0]));
        assert(convert_nodes(s, j) == seq![d] + rest);
        assert((seq![d] + rest).drop_first() =~= rest);
        assert((seq![d] + rest)[0] == d);
        assert(ids_of_seq(seq![d] + rest) == ids_of_node(d) + ids_of_seq(rest));
    }
}

proof fn lemma_convert_ids_node(n: MenuNodeView, j: int)
    ensures
        ids_of_node(convert_node(n, j)).len() == node_size(n),
        forall|k: int|
            0 <= k < node_size(n) ==> ids_of_node(convert_node(n, j))[k] == j + 1 + k,
    decreases n, 1int,
{
    lemma_node_size_pos(n);
    match n {
        MenuNodeView::Submenu { children, .. } => {
            lemma_convert_ids(children, j + 1);
        },
        _ => {},
    }
}

/// Law: ids assigned by one walk are unique across every node of the tree,
/// separators included, and at least 1; id 0 stays reserved for the
/// synthetic root.
pub proof fn lemma_assign_ids_unique(s: Seq<MenuNodeView>)
    ensures
        forall|k: int|
            0 <= k < ids_of_seq(convert_nodes(s, 0)).len() ==> ids_of_seq(convert_nodes(s, 0))[k]
                >= 1,
        forall|k1: int, k2: int|
            0 <= k1 < ids_of_seq(convert_nodes(s, 0)).len() && 0 <= k2 < ids_of_seq(
                convert_nodes(s, 0),
            ).len() && k1 != k2 ==> ids_of_seq(convert_nodes(s, 0))[k1] != ids_of_seq(
                convert_nodes(s, 0),
            )[k2],
{
    lemma_convert_ids(s, 0);
}


/// Node count splits over concatenation.
pub proof fn lemma_seq_size_concat(a: Seq<MenuNodeView>, b: Seq<MenuNodeView>)
    ensures
        seq_size(a + b) == seq_size(a) + seq_size(b),
    decreases a,
{
    if a.len() == 0 {
        assert(a + b =~= b);
    } else {
        assert((a + b)[0] == a[0]);
        assert((a + b).drop_first() =~= a.drop_first() + b);
        lemma_seq_size_concat(a.drop_first(), b);
    }
}

/// Node count of a forest grows by the appended subtree.
pub proof fn lemma_seq_size_push(s: Seq<MenuNodeView>, x: MenuNodeView)
    ensures
        seq_size(s.push(x)) == seq_size(s) + node_size(x),
{
    assert(s.push(x) =~= s + seq![x]);
    lemma_seq_size_concat(s, seq![x]);
    assert(seq![x][0] == x);
    assert(seq![x].drop_first() =~= Seq::<MenuNodeView>::empty());
    assert(seq_size(Seq::<MenuNodeView>::empty()) == 0);
    assert(seq_size(seq![x]) == node_size(x));
}

/// Converting an extended forest appends the conversion of the new root.
pub proof fn lemma_convert_nodes_push(s: Seq<MenuNodeView>, x: MenuNodeView, j: int)
    ensures
        convert_nodes(s.push(x), j) == convert_nodes(s, j).push(
            convert_node(x, j + seq_size(s)),
        ),
    decreases s,
{
    if s.len() == 0 {
        assert(s.push(x)[0] == x);
        assert(s.push(x).len() == 1);
        assert(convert_nodes(s.push(x), j) == seq![convert_node(s.push(x)[0], j)] + convert_nodes(
            s.push(x).drop_first(),
            j + node_size(s.push(x)[0]),
        ));
        assert(s.push(x).drop_first().len() == 0);
        assert(convert_nodes(s.push(x).drop_first(), j + node_size(s.push(x)[0])) == Seq::<
            DataView,
        >::empty());
        assert(seq_size(s) == 0);
        assert(convert_nodes(s.push(x), j) =~= convert_nodes(s, j).push(
            convert_node(x, j + seq_size(s)),
        ));
    } else {
        lemma_convert_nodes_push(s.drop_first(), x, j + node_size(s[0]));
        assert(s.push(x)[0] == s[0]);
        assert(s.push(x).drop_first() =~= s.drop_first().push(x));
        assert(convert_nodes(s.push(x), j) == seq![convert_node(s.push(x)[0], j)] + convert_nodes(
            s.push(x).drop_first(),
            j + node_size(s.push(x)[0]),
        ));
        assert(convert_nodes(s.push(x), j) =~= convert_nodes(s, j).push(
            convert_node(x, j + seq_size(s)),
        ));
    }
}

/// `datas_view` of an extended list appends the view of the new element.
pub proof fn lemma_datas_view_push(s: Seq<MenuItemData>, x: MenuItemData)
    ensures
        datas_view(s.push(x)) == datas_view(s).push(data_view(x)),
    decreases s,
{
    if s.len() == 0 {
        assert(s.push(x)[0] == x);
        assert(s.push(x).len() == 1);
        assert(datas_view(s.push(x)) == seq![data_view(s.push(x)[0])] + datas_view(
            s.push(x).drop_first(),
        ));
        assert(s.push(x).drop_first().len() == 0);
        assert(datas_view(s.push(x).drop_first()) == Seq::<DataView>::empty());
        assert(datas_view(s.push(x)) =~= datas_view(s).push(data_view(x)));
    } else {
        lemma_datas_view_push(s.drop_first(), x);
        assert(s.push(x)[0] == s[0]);
        assert(s.push(x).drop_first() =~= s.drop_first().push(x));
        assert(datas_view(s.push(x)) == seq![data_view(s.push(x)[0])] + datas_view(
            s.push(x).drop_first(),
        ));
        assert(datas_view(s.push(x)) =~= datas_view(s).push(data_view(x)));
    }
}

/// The table entries contributed by one annotated node: its own pair, if
/// it carries an event id, then its children's pairs, in pre-order.
pub open spec fn table_of_node(d: DataView) -> Seq<(int, u64)>
    decreases d,
{
    (match d.event_id {
        Some(e) => seq![(d.id, e)],
        None => Seq::empty(),
    }) + table_of_seq(d.children)
}

pub open spec fn table_of_seq(ds: Seq<DataView>) -> Seq<(int, u64)>
    decreases ds,
{
    if ds.len() == 0 {
        Seq::empty()
    } else {
        table_of_node(ds[0]) + table_of_seq(ds.drop_first())
    }
}

/// Table entries split over concatenation of forests.
pub proof fn lemma_table_concat(a: Seq<DataView>, b: Seq<DataView>)
    ensures
        table_of_seq(a + b) == table_of_seq(a) + table_of_seq(b),
    decreases a,
{
    if a.len() == 0 {
        assert(a + b =~= b);
        assert(table_of_seq(a) + table_of_seq(b) =~= table_of_seq(b));
    } else {
        assert((a + b)[0] == a[0]);
        assert((a + b).drop_first() =~= a.drop_first() + b);
        lemma_table_concat(a.drop_first(), b);
        assert(table_of_seq(a + b) =~= table_of_seq(a) + table_of_seq(b));
    }
}

/// Table entries of an extended forest append the new root's entries.
pub proof fn lemma_table_push(ds: Seq<DataView>, d: DataView)
    ensures
        table_of_seq(ds.push(d)) == table_of_seq(ds) + table_of_node(d),
{
    assert(ds.push(d) =~= ds + seq![d]);
    lemma_table_concat(ds, seq![d]);
    assert(seq![d][0] == d);
    assert(seq![d].drop_first() =~= Seq::<DataView>::empty());
    assert(table_of_seq(Seq::<DataView>::empty()) == Seq::<(int, u64)>::empty());
    assert(table_of_seq(seq![d]) =~= table_of_node(d));
}

/// The view of a flat entry list, with mathematical ids.
pub open spec fn entries_view(s: Seq<(i32, u64)>) -> Seq<(int, u64)> {
    Seq::new(s.len(), |k: int| (s[k].0 as int, s[k].1))
}

/// First match in a flat table.
pub open spec fn table_lookup(t: Seq<(int, u64)>, id: int) -> Option<u64>
    decreases t,
{
    if t.len() == 0 {
        None
    } else if t[0].0 == id {
        Some(t[0].1)
    } else {
        table_lookup(t.drop_first(), id)
    }
}

/// Flat lookup table from wire id to application event id, used to route
/// host activation events back to typed application events.
#[derive(Debug)]
pub struct IdTable {
    pub entries: Vec<(i32, u64)>,
}

impl View for IdTable {
    type V = Seq<(int, u64)>;

    open spec fn view(&self) -> Seq<(int, u64)> {
        entries_view(self.entries@)
    }
}

impl IdTable {
    /// The event id recorded for wire id `id`, if any.
    pub fn lookup(&self, id: i32) -> (r: Option<u64>)
        ensures
            r == table_lookup(self@, id as int),
    {
        let n = self.entries.len();
        let mut i: usize = 0;
        proof {
            assert(self@.skip(0) =~= self@);
        }
        while i < n
            invariant
                n == self.entries@.len(),
                i <= n,
                table_lookup(self@, id as int) == table_lookup(self@.skip(i as int), id as int),
            decreases n - i,
        {
            let (k, e) = self.entries[i];
            proof {
                assert(self@.skip(i as int)[0] == (k as int, e));
            }
            if k == id {
                return Some(e);
            }
            proof {
                assert(self@.skip(i as int).drop_first() =~= self@.skip(i as int + 1));
            }
            i += 1;
        }
        proof {
            assert(self@.skip(n as int).len() == 0);
        }
        None
    }

    /// The number of entries.
    pub fn len(&self) -> (r: usize)
        ensures
            r == self@.len(),
    {
        self.entries.len()
    }
}

/// The id-annotated shadow tree plus its id table: what one `build` run
/// hands to the protocol adapter.
#[derive(Debug)]
pub struct MenuSys {
    pub items: Vec<MenuItemData>,
    pub table: IdTable,
}

/// Ghost mirror of [`MenuSys`].
#[verifier::ext_equal]
pub struct MenuSysView {
    pub items: Seq<DataView>,
    pub table: Seq<(int, u64)>,
}

impl View for MenuSys {
    type V = MenuSysView;

    open spec fn view(&self) -> MenuSysView {
        MenuSysView { items: datas_view(self.items@), table: self.table@ }
    }
}

impl MenuSys {
    /// An empty shadow tree.
    pub fn new() -> (r: Result<MenuSys, Error>)
        ensures
            r matches Ok(ms) && ms@.items == Seq::<DataView>::empty() && ms@.table == Seq::<
                (int, u64),
            >::empty(),
    {
        let r = MenuSys { items: Vec::new(), table: IdTable { entries: Vec::new() } };
        proof {
            assert(r@.items =~= Seq::<DataView>::empty());
            assert(r@.table =~= Seq::<(int, u64)>::empty());
        }
        Ok(r)
    }
}

/// Assign the next ids to one node and its subtree: `j` is the pre-order
/// counter, advanced past the subtree; event-carrying nodes append their
/// pair to `table`.
#[verifier::loop_isolation(false)]
fn convert_menu_item(j: &mut i32, item: &MenuItem, table: &mut Vec<(i32, u64)>) -> (r: MenuItemData)
    requires
        0 <= *old(j),
        *old(j) + node_size(node_view(*item)) <= i32::MAX,
    ensures
        r@ == convert_node(node_view(*item), *old(j) as int),
        *final(j) == *old(j) + node_size(node_view(*item)),
        entries_view(final(table)@) == entries_view(old(table)@) + table_of_node(
            convert_node(node_view(*item), *old(j) as int),
        ),
    decreases node_size(node_view(*item)), 0int,
{
    proof {
        lemma_node_size_pos(node_view(*item));
    }
    let ghost j0 = *j as int;
    *j = *j + 1;
    let current_id: i32 = *j;
    match item {
        MenuItem::Separator => {
            let r = MenuItemData {
                id: current_id,
                label: String::new(),
                event_id: None,
                is_separator: true,
                is_checkable: false,
                is_checked: false,
                is_disabled: false,
                children: Vec::new(),
            };
            proof {
                assert(datas_view(r.children@) =~= Seq::<DataView>::empty());
                assert(r@ =~= convert_node(node_view(*item), j0));
                assert(entries_view(table@) =~= entries_view(table@) + table_of_node(r@));
            }
            r
        },
        MenuItem::Item { id, name, disabled, .. } => {
            let ghost t0 = entries_view(table@);
            table.push((current_id, *id));
            let r = MenuItemData {
                id: current_id,
                label: name.clone(),
                event_id: Some(*id),
                is_separator: false,
                is_checkable: false,
                is_checked: false,
                is_disabled: *disabled,
                children: Vec::new(),
            };
            proof {
                assert(datas_view(r.children@) =~= Seq::<DataView>::empty());
                assert(r@ =~= convert_node(node_view(*item), j0));
                assert(entries_view(table@) =~= t0 + table_of_node(r@));
            }
            r
        },
        MenuItem::Checkable { id, name, is_checked, disabled, .. } => {
            let ghost t0 = entries_view(table@);
            table.push((current_id, *id));
            let r = MenuItemData {
                id: current_id,
                label: name.clone(),
                event_id: Some(*id),
                is_separator: false,
                is_checkable: true,
                is_checked: *is_checked,
                is_disabled: *disabled,
                children: Vec::new(),
            };
            proof {
                assert(datas_view(r.children@) =~= Seq::<DataView>::empty());
                assert(r@ =~= convert_node(node_view(*item), j0));
                assert(entries_view(table@) =~= t0 + table_of_node(r@));
            }
            r
        },
        MenuItem::Submenu { id, name, children, disabled, .. } => {
            let ghost t0 = entries_view(table@);
            let event_id: Option<u64> = match id {
                Some(e) => {
                    table.push((current_id, *e));
                    Some(*e)
                },
                None => None,
            };
            proof {
                match event_id {
                    Some(e) => {
                        assert(entries_view(table@) =~= t0 + seq![(current_id as int, e)]);
                    },
                    None => {},
                }
                lemma_size_pos(nodes_view(children.menu_items@));
            }
            let ghost t1 = entries_view(table@);
            let child_items = convert_items(j, &children.menu_items, table);
            let r = MenuItemData {
                id: current_id,
                label: name.clone(),
                event_id,
                is_separator: false,
                is_checkable: false,
                is_checked: false,
                is_disabled: *disabled,
                children: child_items,
            };
            proof {
                assert(r@ =~= convert_node(node_view(*item), j0));
                assert(entries_view(table@) =~= t0 + table_of_node(r@));
            }
            r
        },
    }
}

/// Assign ids to every node of a list, in order, advancing the counter
/// past each subtree.
#[verifier::loop_isolation(false)]
fn convert_items(j: &mut i32, items: &Vec<MenuItem>, table: &mut Vec<(i32, u64)>) -> (r: Vec<
    MenuItemData,
>)
    requires
        0 <= *old(j),
        *old(j) + seq_size(nodes_view(items@)) <= i32::MAX,
    ensures
        datas_view(r@) == convert_nodes(nodes_view(items@), *old(j) as int),
        *final(j) == *old(j) + seq_size(nodes_view(items@)),
        entries_view(final(table)@) == entries_view(old(table)@) + table_of_seq(
            convert_nodes(nodes_view(items@), *old(j) as int),
        ),
    decreases seq_size(nodes_view(items@)), 1int,
{
    let ghost cv = nodes_view(items@);
    let ghost j0 = *j as int;
    let ghost t0 = entries_view(table@);
    proof {
        lemma_nodes_view(items@);
        lemma_size_pos(cv);
    }
    let n = items.len();
    let mut out: Vec<MenuItemData> = Vec::new();
    let mut i: usize = 0;
    proof {
        assert(cv.take(0) =~= Seq::<MenuNodeView>::empty());
        assert(convert_nodes(cv.take(0), j0) =~= Seq::<DataView>::empty());
        assert(datas_view(out@) =~= convert_nodes(cv.take(0), j0));
        assert(table_of_seq(convert_nodes(cv.take(0), j0)) =~= Seq::<(int, u64)>::empty());
        assert(entries_view(table@) =~= t0 + table_of_seq(convert_nodes(cv.take(0), j0)));
        assert(seq_size(cv.take(0)) == 0);
    }
    while i < n
        invariant
            n == items@.len(),
            i <= n,
            cv.len() == n,
            out@.len() == i,
            *j == j0 + seq_size(cv.take(i as int)),
            datas_view(out@) == convert_nodes(cv.take(i as int), j0),
            entries_view(table@) == t0 + table_of_seq(convert_nodes(cv.take(i as int), j0)),
        decreases n - i,
    {
        let ghost pre_take = cv.take(i as int);
        proof {
            assert(cv =~= pre_take + cv.skip(i as int));
            lemma_seq_size_concat(pre_take, cv.skip(i as int));
            assert(cv.skip(i as int)[0] == cv[i as int]);
            assert(cv.skip(i as int).drop_first() =~= cv.skip(i as int + 1));
            lemma_size_pos(cv.skip(i as int + 1));
            lemma_size_pos(pre_take);
            assert(seq_size(cv.skip(i as int)) == node_size(cv[i as int]) + seq_size(
                cv.skip(i as int + 1),
            ));
            assert(node_view(items@[i as int]) == cv[i as int]);
        }
        let ghost out_pre = out@;
        let ghost jb = *j as int;
        let d = convert_menu_item(j, &items[i], table);
        out.push(d);
        proof {
            lemma_datas_view_push(out_pre, d);
            lemma_convert_nodes_push(pre_take, cv[i as int], j0);
            assert(pre_take.push(cv[i as int]) =~= cv.take(i as int + 1));
            lemma_seq_size_push(pre_take, cv[i as int]);
            lemma_table_push(convert_nodes(pre_take, j0), convert_node(cv[i as int], j0
                + seq_size(pre_take)));
            assert(datas_view(out@) =~= convert_nodes(cv.take(i as int + 1), j0));
            assert(entries_view(table@) =~= t0 + table_of_seq(
                convert_nodes(cv.take(i as int + 1), j0),
            ));
        }
        i += 1;
    }
    proof {
        assert(cv.take(n as int) =~= cv);
    }
    out
}

/// Walk the menu tree and assign each node a process-unique wire id, in
/// pre-order starting at 1; produce the annotated shadow tree and the flat
/// id table. This never fails; an empty tree yields an empty shadow tree.
pub fn build_menu(builder: &MenuBuilder) -> (r: Result<MenuSys, Error>)
    requires
        seq_size(builder@) <= i32::MAX,
    ensures
        r matches Ok(ms) && ms@.items == convert_nodes(builder@, 0) && ms@.table == table_of_seq(
            convert_nodes(builder@, 0),
        ),
{
    let mut j: i32 = 0;
    let mut table: Vec<(i32, u64)> = Vec::new();
    proof {
        assert(entries_view(table@) =~= Seq::<(int, u64)>::empty());
    }
    let items = convert_items(&mut j, builder.menu_items_ref(), &mut table);
    let ms = MenuSys { items, table: IdTable { entries: table } };
    proof {
        assert(ms@.table =~= table_of_seq(convert_nodes(builder@, 0)));
    }
    Ok(ms)
}

impl MenuBuilder {
    /// Borrow the node list.
    pub fn menu_items_ref(&self) -> (r: &Vec<MenuItem>)
        ensures
            r == &self.menu_items,
    {
        &self.menu_items
    }

    /// Assign wire ids to this tree; see [`build_menu`].
    pub fn build(&self) -> (r: Result<MenuSys, Error>)
        requires
            seq_size(self@) <= i32::MAX,
        ensures
            r matches Ok(ms) && ms@.items == convert_nodes(self@, 0) && ms@.table == table_of_seq(
                convert_nodes(self@, 0),
            ),
    {
        build_menu(self)
    }
}


/// The number of nodes in an annotated subtree, itself included.
pub open spec fn data_size(d: DataView) -> int
    decreases d,
{
    1 + datas_size(d.children)
}

/// The number of nodes in an annotated forest, all levels included.
pub open spec fn datas_size(ds: Seq<DataView>) -> int
    decreases ds,
{
    if ds.len() == 0 {
        0
    } else {
        data_size(ds[0]) + datas_size(ds.drop_first())
    }
}

pub proof fn lemma_data_size_pos(ds: Seq<DataView>)
    ensures
        datas_size(ds) >= ds.len(),
        forall|i: int| 0 <= i < ds.len() ==> #[trigger] data_size(ds[i]) >= 1,
        forall|i: int| 0 <= i < ds.len() ==> #[trigger] data_size(ds[i]) <= datas_size(ds),
    decreases ds,
{
    if ds.len() > 0 {
        lemma_data_size_pos(ds.drop_first());
        lemma_data_size_node_pos(ds[0]);
        assert forall|i: int| 0 <= i < ds.len() implies #[trigger] data_size(ds[i]) >= 1
            && data_size(ds[i]) <= datas_size(ds) by {
            if i > 0 {
                assert(ds.drop_first()[i - 1] == ds[i]);
            }
        }
    }
}

pub proof fn lemma_data_size_node_pos(d: DataView)
    ensures
        data_size(d) >= 1,
    decreases d,
{
    lemma_data_size_pos(d.children);
}

} // verus!
