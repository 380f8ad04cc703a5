//! Layout serialization: turning the subtree at a node into the recursive
//! wire structure the menu protocol answers layout queries with, honouring
//! a recursion-depth bound and a property-name filter.  An unknown id
//! yields an empty stub rather than an error, since hosts may query stale
//! ids right after a republish.

use vstd::prelude::*;
use crate::menu::{
    DBusMenu, MenuProperty, MenuShape, PropShape, filter_props, filtered_properties, names_shape,
};
use crate::wf::{menu_wf, node_ok};

verus! {

/// One node of a serialized layout: its id, its (filtered) property bag,
/// and the serialized children in insertion order.
#[derive(Debug)]
pub struct DBusMenuLayoutItem {
    pub id: i32,
    pub properties: Vec<MenuProperty>,
    pub children: Vec<DBusMenuLayoutItem>,
}

/// The mathematical shape of a serialized layout.
#[verifier::ext_equal]
pub struct LayoutShape {
    pub id: int,
    pub properties: Seq<PropShape>,
    pub children: Seq<LayoutShape>,
}

/// The shape of one serialized layout node.
pub open spec fn layout_shape_of(l: DBusMenuLayoutItem) -> LayoutShape
    decreases l, 0int, 0int,
{
    LayoutShape {
        id: l.id as int,
        properties: l.properties@.map_values(|p: MenuProperty| p@),
        children: layout_shapes_from(l.children@, 0),
    }
}

/// The shapes of the layouts of `ls` from position `k` on.
pub open spec fn layout_shapes_from(ls: Seq<DBusMenuLayoutItem>, k: int) -> Seq<LayoutShape>
    decreases ls, 1int, ls.len() - k,
{
    if 0 <= k < ls.len() {
        seq![layout_shape_of(ls[k])] + layout_shapes_from(ls, k + 1)
    } else {
        Seq::empty()
    }
}

impl View for DBusMenuLayoutItem {
    type V = LayoutShape;

    open spec fn view(&self) -> LayoutShape {
        layout_shape_of(*self)
    }
}

/// `layout_shapes_from` maps `layout_shape_of` over the list.
pub proof fn lemma_layout_shapes_from(ls: Seq<DBusMenuLayoutItem>, k: int)
    requires
        0 <= k <= ls.len(),
    ensures
        layout_shapes_from(ls, k).len() == ls.len() - k,
        forall|t: int|
            0 <= t < ls.len() - k ==> #[trigger] layout_shapes_from(ls, k)[t] == layout_shape_of(
                ls[k + t],
            ),
    decreases ls.len() - k,
{
    if k < ls.len() {
        lemma_layout_shapes_from(ls, k + 1);
    }
}

// ---------------------------------------------------------------------------
// The specification of layout serialization.
// ---------------------------------------------------------------------------

/// The empty stub answered for an id absent from the tree.
pub open spec fn stub_layout(id: int) -> LayoutShape {
    LayoutShape { id, properties: Seq::empty(), children: Seq::empty() }
}

/// The depth handed to child serialization: any negative depth means
/// "unlimited" and stays negative; a positive depth counts down to 0.
pub open spec fn next_depth(depth: int) -> int {
    if depth < 0 {
        -1
    } else {
        depth - 1
    }
}

/// The serialized subtree at `id`: the node's filtered properties, plus —
/// when it has children and the depth bound allows — a synthetic
/// `children-display` marker and the serialized children.
pub open spec fn layout_of(m: MenuShape, id: int, depth: int, names: Seq<Seq<char>>) -> LayoutShape
    decreases m.nodes.len() - id, 2int, 0int,
        when menu_wf(m)
{
    if !(0 <= id < m.nodes.len()) {
        stub_layout(id)
    } else {
        let node = m.nodes[id];
        let props = filter_props(node.properties, names);
        if node.children.len() > 0 && depth != 0 {
            LayoutShape {
                id,
                properties: props.push(PropShape::ChildrenDisplay),
                children: child_layouts(m, id, 0, next_depth(depth), names),
            }
        } else {
            LayoutShape { id, properties: props, children: Seq::empty() }
        }
    }
}

/// The serialized children of `parent` from child position `k` on.
pub open spec fn child_layouts(
    m: MenuShape,
    parent: int,
    k: int,
    depth: int,
    names: Seq<Seq<char>>,
) -> Seq<LayoutShape>
    decreases m.nodes.len() - parent, 1int, m.nodes[parent].children.len() - k,
        when menu_wf(m) && 0 <= parent < m.nodes.len()
    via child_layouts_decreases
{
    let cs = m.nodes[parent].children;
    if 0 <= k < cs.len() {
        seq![layout_of(m, cs[k], depth, names)] + child_layouts(m, parent, k + 1, depth, names)
    } else {
        Seq::empty()
    }
}

#[via_fn]
proof fn child_layouts_decreases(
    m: MenuShape,
    parent: int,
    k: int,
    depth: int,
    names: Seq<Seq<char>>,
) {
    assert(node_ok(m, parent));
}

/// `child_layouts` maps `layout_of` over the children.
pub proof fn lemma_child_layouts(
    m: MenuShape,
    parent: int,
    k: int,
    depth: int,
    names: Seq<Seq<char>>,
)
    requires
        menu_wf(m),
        0 <= parent < m.nodes.len(),
        0 <= k <= m.nodes[parent].children.len(),
    ensures
        child_layouts(m, parent, k, depth, names).len() == m.nodes[parent].children.len() - k,
        forall|t: int|
            0 <= t < m.nodes[parent].children.len() - k ==> #[trigger] child_layouts(
                m,
                parent,
                k,
                depth,
                names,
            )[t] == layout_of(m, m.nodes[parent].children[k + t], depth, names),
    decreases m.nodes[parent].children.len() - k,
{
    if k < m.nodes[parent].children.len() {
        lemma_child_layouts(m, parent, k + 1, depth, names);
    }
}

// ---------------------------------------------------------------------------
// The executable serializer.
// ---------------------------------------------------------------------------

impl DBusMenu {
    /// Serializes the subtree at `parent_id`.  A negative recursion depth
    /// means unlimited; property filtering follows the requested names,
    /// with an empty request meaning all properties.
    #[verifier::loop_isolation(false)]
    pub fn to_layout(
        &self,
        parent_id: i32,
        recursion_depth: i32,
        property_names: &Vec<String>,
    ) -> (r: DBusMenuLayoutItem)
        requires
            menu_wf(self@),
        ensures
            r@ == layout_of(
                self@,
                parent_id as int,
                recursion_depth as int,
                names_shape(property_names@),
            ),
        decreases self@.nodes.len() - parent_id,
    {
        let ghost names = names_shape(property_names@);
        match self.get_node(parent_id) {
            None => {
                let r = DBusMenuLayoutItem {
                    id: parent_id,
                    properties: Vec::new(),
                    children: Vec::new(),
                };
                proof {
                    assert(r@ =~~= stub_layout(parent_id as int));
                }
                r
            },
            Some(node) => {
                proof {
                    assert(node_ok(self@, parent_id as int));
                }
                let mut properties = filtered_properties(&node.properties, property_names);
                let mut children: Vec<DBusMenuLayoutItem> = Vec::new();
                if node.children.len() > 0 && recursion_depth != 0 {
                    properties.push(MenuProperty::ChildrenDisplay);
                    let nd: i32 = if recursion_depth < 0 {
                        -1
                    } else {
                        recursion_depth - 1
                    };
                    let mut k: usize = 0;
                    while k < node.children.len()
                        invariant
                            0 <= k <= node@.children.len(),
                            children@.len() == k,
                            forall|t: int|
                                0 <= t < k ==> layout_shape_of(#[trigger] children@[t])
                                    == layout_of(
                                    self@,
                                    node@.children[t],
                                    nd as int,
                                    names,
                                ),
                        decreases node@.children.len() - k,
                    {
                        let cid = node.children[k];
                        proof {
                            assert(node@.children[k as int] == cid as int);
                        }
                        let child = self.to_layout(cid, nd, property_names);
                        children.push(child);
                        k += 1;
                    }
                    let r = DBusMenuLayoutItem { id: parent_id, properties, children };
                    proof {
                        let mshape = self@;
                        let pid = parent_id as int;
                        lemma_child_layouts(mshape, pid, 0, nd as int, names);
                        lemma_layout_shapes_from(r.children@, 0);
                        assert(layout_shapes_from(r.children@, 0) =~= child_layouts(
                            mshape,
                            pid,
                            0,
                            nd as int,
                            names,
                        ));
                        assert(r.properties@.map_values(|p: MenuProperty| p@) =~= filter_props(
                            mshape.nodes[pid].properties,
                            names,
                        ).push(PropShape::ChildrenDisplay));
                        assert(r@ =~~= layout_of(mshape, pid, recursion_depth as int, names));
                    }
                    r
                } else {
                    let r = DBusMenuLayoutItem { id: parent_id, properties, children };
                    proof {
                        assert(layout_shapes_from(r.children@, 0) =~= Seq::<LayoutShape>::empty());
                        assert(r@ =~~= layout_of(
                            self@,
                            parent_id as int,
                            recursion_depth as int,
                            names,
                        ));
                    }
                    r
                }
            },
        }
    }
}

// ---------------------------------------------------------------------------
// Completeness of unlimited-depth layouts.
// ---------------------------------------------------------------------------

/// The ids appearing in a serialized layout, in serialization order.
pub open spec fn layout_ids(l: LayoutShape) -> Seq<int>
    decreases l, 0int, 0int,
{
    seq![l.id] + layouts_ids_from(l.children, 0)
}

/// The ids of the layouts of `ls` from position `k` on, concatenated.
pub open spec fn layouts_ids_from(ls: Seq<LayoutShape>, k: int) -> Seq<int>
    decreases ls, 1int, ls.len() - k,
{
    if 0 <= k < ls.len() {
        layout_ids(ls[k]) + layouts_ids_from(ls, k + 1)
    } else {
        Seq::empty()
    }
}

/// The contiguous id range `lo .. hi`.
pub open spec fn id_range(lo: int, hi: int) -> Seq<int> {
    Seq::new((hi - lo) as nat, |t: int| lo + t)
}

/// Shifting `layouts_ids_from` across a cons.
proof fn lemma_ids_from_shift(x: LayoutShape, rest: Seq<LayoutShape>, j: int)
    requires
        0 <= j <= rest.len(),
    ensures
        layouts_ids_from(seq![x] + rest, j + 1) == layouts_ids_from(rest, j),
    decreases rest.len() - j,
{
    let s = seq![x] + rest;
    if j < rest.len() {
        assert(s[j + 1] == rest[j]);
        lemma_ids_from_shift(x, rest, j + 1);
    }
}

/// With unlimited depth, the ids serialized below `id` are exactly the
/// contiguous id range of its subtree.
pub proof fn lemma_layout_ids_range(m: MenuShape, id: int, depth: int, names: Seq<Seq<char>>)
    requires
        menu_wf(m),
        0 <= id < m.nodes.len(),
        depth < 0,
    ensures
        layout_ids(layout_of(m, id, depth, names)) == id_range(id, m.spans[id]),
    decreases m.nodes.len() - id, 2int, 0int,
{
    assert(node_ok(m, id));
    let l = layout_of(m, id, depth, names);
    let cs = m.nodes[id].children;
    if cs.len() > 0 {
        lemma_child_layout_ids_range(m, id, 0, next_depth(depth), names);
        assert(layout_ids(l) =~= id_range(id, m.spans[id]));
    } else {
        assert(layout_ids(l) =~= id_range(id, m.spans[id]));
    }
}

/// The ids serialized for the children of `parent` from position `k` on
/// are exactly the range from child `k`'s first id to the end of
/// `parent`'s subtree.
proof fn lemma_child_layout_ids_range(
    m: MenuShape,
    parent: int,
    k: int,
    depth: int,
    names: Seq<Seq<char>>,
)
    requires
        menu_wf(m),
        0 <= parent < m.nodes.len(),
        0 <= k <= m.nodes[parent].children.len(),
        m.nodes[parent].children.len() > 0,
        depth < 0,
    ensures
        ({
            let cs = m.nodes[parent].children;
            let start = if k < cs.len() {
                cs[k]
            } else {
                m.spans[parent]
            };
            &&& start <= m.spans[parent]
            &&& layouts_ids_from(child_layouts(m, parent, k, depth, names), 0) == id_range(
                start,
                m.spans[parent],
            )
        }),
    decreases m.nodes.len() - parent, 1int, m.nodes[parent].children.len() - k,
{
    assert(node_ok(m, parent));
    let cs = m.nodes[parent].children;
    if k < cs.len() {
        let c = cs[k];
        assert(node_ok(m, c));
        lemma_layout_ids_range(m, c, depth, names);
        lemma_child_layout_ids_range(m, parent, k + 1, depth, names);
        let first = layout_of(m, c, depth, names);
        let rest = child_layouts(m, parent, k + 1, depth, names);
        lemma_ids_from_shift(first, rest, 0);
        assert(layouts_ids_from(seq![first] + rest, 0) == layout_ids(first) + layouts_ids_from(
            rest,
            0,
        ));
        let nxt = if k + 1 < cs.len() {
            cs[k + 1]
        } else {
            m.spans[parent]
        };
        assert(m.spans[c] == nxt);
        assert(id_range(c, m.spans[c]) + id_range(nxt, m.spans[parent]) =~= id_range(
            c,
            m.spans[parent],
        ));
    } else {
        assert(layouts_ids_from(child_layouts(m, parent, k, depth, names), 0) =~= id_range(
            m.spans[parent],
            m.spans[parent],
        ));
    }
}

// ---------------------------------------------------------------------------
// Reachability.
// ---------------------------------------------------------------------------

/// Whether node `b` lies in the subtree of node `a`, following child
/// edges.
pub open spec fn reaches(m: MenuShape, a: int, b: int) -> bool
    decreases m.nodes.len() - a, 1int, 0int,
        when menu_wf(m) && 0 <= a < m.nodes.len()
{
    a == b || reaches_from_child(m, a, 0, b)
}

/// Whether node `b` lies in the subtree of one of `a`'s children from
/// child position `k` on.
pub open spec fn reaches_from_child(m: MenuShape, a: int, k: int, b: int) -> bool
    decreases m.nodes.len() - a, 0int, m.nodes[a].children.len() - k,
        when menu_wf(m) && 0 <= a < m.nodes.len()
    via reaches_from_child_decreases
{
    let cs = m.nodes[a].children;
    if 0 <= k < cs.len() {
        reaches(m, cs[k], b) || reaches_from_child(m, a, k + 1, b)
    } else {
        false
    }
}

#[via_fn]
proof fn reaches_from_child_decreases(m: MenuShape, a: int, k: int, b: int) {
    assert(node_ok(m, a));
}

/// Reachability is exactly membership in the subtree's id range.
pub proof fn lemma_reaches_iff_range(m: MenuShape, a: int, b: int)
    requires
        menu_wf(m),
        0 <= a < m.nodes.len(),
    ensures
        reaches(m, a, b) <==> a <= b < m.spans[a],
    decreases m.nodes.len() - a, 1int, 0int,
{
    assert(node_ok(m, a));
    lemma_reaches_from_child_iff(m, a, 0, b);
}

proof fn lemma_reaches_from_child_iff(m: MenuShape, a: int, k: int, b: int)
    requires
        menu_wf(m),
        0 <= a < m.nodes.len(),
        0 <= k <= m.nodes[a].children.len(),
    ensures
        ({
            let cs = m.nodes[a].children;
            &&& (k < cs.len() ==> cs[k] < m.spans[a])
            &&& if k < cs.len() {
                reaches_from_child(m, a, k, b) <==> cs[k] <= b < m.spans[a]
            } else {
                !reaches_from_child(m, a, k, b)
            }
        }),
    decreases m.nodes.len() - a, 0int, m.nodes[a].children.len() - k,
{
    assert(node_ok(m, a));
    let cs = m.nodes[a].children;
    if k < cs.len() {
        let c = cs[k];
        assert(node_ok(m, c));
        lemma_reaches_iff_range(m, c, b);
        lemma_reaches_from_child_iff(m, a, k + 1, b);
        if k + 1 < cs.len() {
            assert(m.spans[c] == cs[k + 1]);
        } else {
            assert(c == cs[cs.len() - 1]);
            assert(m.spans[c] == m.spans[a]);
        }
        assert(reaches_from_child(m, a, k, b) == (reaches(m, c, b) || reaches_from_child(
            m,
            a,
            k + 1,
            b,
        )));
        assert(reaches(m, c, b) <==> c <= b < m.spans[c]);
    }
}

/// Law: serializing with unlimited depth includes every node reachable
/// from `id` — and nothing else — with no id repeated and none omitted.
pub proof fn lemma_layout_complete(m: MenuShape, id: int, depth: int, names: Seq<Seq<char>>)
    requires
        menu_wf(m),
        0 <= id < m.nodes.len(),
        depth < 0,
    ensures
        layout_ids(layout_of(m, id, depth, names)).no_duplicates(),
        forall|b: int| #[trigger]
            layout_ids(layout_of(m, id, depth, names)).contains(b) <==> reaches(m, id, b),
{
    lemma_layout_ids_range(m, id, depth, names);
    let ids = layout_ids(layout_of(m, id, depth, names));
    assert(node_ok(m, id));
    assert forall|i: int, j: int| 0 <= i < ids.len() && 0 <= j < ids.len() && i != j implies ids[i]
        != ids[j] by {}
    assert(ids.no_duplicates());
    assert forall|b: int| #[trigger] ids.contains(b) <==> reaches(m, id, b) by {
        lemma_reaches_iff_range(m, id, b);
        if id <= b < m.spans[id] {
            assert(ids[b - id] == b);
        }
    }
}

} // verus!
