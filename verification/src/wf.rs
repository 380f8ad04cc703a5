//! Well-formedness of the menu arena.  The builder assigns ids by a
//! pre-order walk, so the subtree of node `i` occupies exactly the
//! contiguous id range `i .. spans[i]`; each node's children sit back to
//! back inside that range.  This module states that invariant and proves
//! that the builder establishes it.

use vstd::prelude::*;
use crate::menu::{
    MenuShape, add_item_spec, add_items_spec, attach_node, build_menu, count_item, count_items,
    count_items_from, empty_menu, lemma_count_item_pos, lemma_count_items_from_nonneg, set_span,
    submenu_props,
};
use crate::tray::TrayMenuItem;

verus! {

/// Local well-formedness of node `i`: it knows its own id, its subtree is
/// a nonempty range ending inside the arena, its children all lie strictly
/// inside that range, the first child starts right after `i`, each further
/// child starts where its predecessor's subtree ends, and the last child's
/// subtree closes the range.
pub open spec fn node_ok(m: MenuShape, i: int) -> bool {
    let n = m.nodes.len() as int;
    let cs = m.nodes[i].children;
    &&& m.nodes[i].id == i
    &&& i < m.spans[i] <= n
    &&& forall|k: int| 0 <= k < cs.len() ==> i < #[trigger] cs[k] < n
    &&& (cs.len() == 0 ==> m.spans[i] == i + 1)
    &&& (cs.len() > 0 ==> cs[0] == i + 1 && m.spans[i] == m.spans[cs[cs.len() - 1]])
    &&& forall|k: int| 0 <= k < cs.len() - 1 ==> m.spans[#[trigger] cs[k]] == cs[k + 1]
}

/// The whole arena is well formed: node 0 is the root, its subtree is the
/// whole arena, and every node is locally well formed.
pub open spec fn menu_wf(m: MenuShape) -> bool {
    let n = m.nodes.len() as int;
    &&& 1 <= n <= i32::MAX as int
    &&& m.spans.len() == n
    &&& m.spans[0] == n
    &&& forall|i: int| 0 <= i < n ==> node_ok(m, i)
}

/// Mid-build state of a node still receiving children: the children
/// attached so far sit back to back, and the last one's subtree ends
/// exactly at the current end of the arena, where the next child (or the
/// node's own span) will continue.
pub open spec fn open_chain(m: MenuShape, p: int) -> bool {
    let n = m.nodes.len() as int;
    let cs = m.nodes[p].children;
    &&& forall|k: int| 0 <= k < cs.len() ==> p < #[trigger] cs[k] < n
    &&& (cs.len() == 0 ==> n == p + 1)
    &&& (cs.len() > 0 ==> cs[0] == p + 1 && m.spans[cs[cs.len() - 1]] == n)
    &&& forall|k: int| 0 <= k < cs.len() - 1 ==> m.spans[#[trigger] cs[k]] == cs[k + 1]
}

/// Local well-formedness survives any change that keeps the node, its
/// span, and its children's spans, and does not shrink the arena.
proof fn lemma_node_ok_same(m1: MenuShape, m2: MenuShape, i: int)
    requires
        0 <= i < m1.nodes.len(),
        m1.nodes.len() <= m2.nodes.len(),
        node_ok(m1, i),
        m2.nodes[i] == m1.nodes[i],
        m2.spans[i] == m1.spans[i],
        forall|k: int| 0 <= k < m1.nodes[i].children.len() ==> m2.spans[#[trigger] m1.nodes[i].children[k]] == m1.spans[m1.nodes[i].children[k]],
    ensures
        node_ok(m2, i),
{
}

/// What one pre-order attachment does to the arena: the new nodes form a
/// closed, locally well-formed block at the end, the parent gains exactly
/// one child (the block's root), and nothing else moves.
pub proof fn lemma_add_item_ok(m: MenuShape, parent: int, item: TrayMenuItem)
    requires
        m.spans.len() == m.nodes.len(),
        0 <= parent < m.nodes.len(),
    ensures
        ({
            let m2 = add_item_spec(m, parent, item);
            let old_len = m.nodes.len() as int;
            &&& m2.nodes.len() == old_len + count_item(item)
            &&& m2.spans.len() == m2.nodes.len()
            &&& forall|i: int| 0 <= i < old_len ==> m2.spans[i] == m.spans[i]
            &&& forall|i: int| 0 <= i < old_len && i != parent ==> m2.nodes[i] == m.nodes[i]
            &&& m2.nodes[parent].id == m.nodes[parent].id
            &&& m2.nodes[parent].user_id == m.nodes[parent].user_id
            &&& m2.nodes[parent].properties == m.nodes[parent].properties
            &&& m2.nodes[parent].children == m.nodes[parent].children.push(old_len)
            &&& m2.spans[old_len] == m2.nodes.len()
            &&& forall|i: int| old_len <= i < m2.nodes.len() ==> node_ok(m2, i)
        }),
    decreases item, 0int, 0int,
{
    let old_len = m.nodes.len() as int;
    lemma_count_item_pos(item);
    match item {
        TrayMenuItem::Separator { .. } => {
        },
        TrayMenuItem::Submenu { id: user_id, label, toggle_type, children } => {
            let m1 = attach_node(m, parent, Some(user_id@), submenu_props(label@, toggle_type));
            lemma_count_items_from_nonneg(children@, 0);
            assert(open_chain(m1, old_len));
            lemma_add_items_ok(m1, old_len, children@, 0);
            let mi = add_items_spec(m1, old_len, children@, 0);
            let m2 = set_span(mi, old_len, mi.nodes.len() as int);
            assert(m2 == add_item_spec(m, parent, item));
            assert(node_ok(m2, old_len));
            assert forall|i: int| old_len < i < m2.nodes.len() implies node_ok(m2, i) by {
                lemma_node_ok_same(mi, m2, i);
            }
            assert(m2.nodes[parent].children =~= m.nodes[parent].children.push(old_len));
        },
    }
}

/// What attaching a run of sibling items does: the parent's existing
/// children stay, the new subtree roots are appended in order, the chain
/// stays open at the end of the arena, and every new node is locally well
/// formed.
pub proof fn lemma_add_items_ok(m: MenuShape, parent: int, items: Seq<TrayMenuItem>, k: int)
    requires
        m.spans.len() == m.nodes.len(),
        0 <= parent < m.nodes.len(),
        open_chain(m, parent),
    ensures
        ({
            let m2 = add_items_spec(m, parent, items, k);
            let old_len = m.nodes.len() as int;
            let added = if 0 <= k < items.len() { items.len() - k } else { 0 };
            &&& m2.nodes.len() == old_len + count_items_from(items, k)
            &&& m2.spans.len() == m2.nodes.len()
            &&& forall|i: int| 0 <= i < old_len ==> m2.spans[i] == m.spans[i]
            &&& forall|i: int| 0 <= i < old_len && i != parent ==> m2.nodes[i] == m.nodes[i]
            &&& m2.nodes[parent].id == m.nodes[parent].id
            &&& m2.nodes[parent].user_id == m.nodes[parent].user_id
            &&& m2.nodes[parent].properties == m.nodes[parent].properties
            &&& m2.nodes[parent].children.len() == m.nodes[parent].children.len() + added
            &&& forall|t: int| 0 <= t < m.nodes[parent].children.len() ==> m2.nodes[parent].children[t] == m.nodes[parent].children[t]
            &&& open_chain(m2, parent)
            &&& forall|i: int| old_len <= i < m2.nodes.len() ==> node_ok(m2, i)
        }),
    decreases items, 1int, items.len() - k,
{
    let old_len = m.nodes.len() as int;
    if 0 <= k < items.len() {
        lemma_count_item_pos(items[k]);
        lemma_count_items_from_nonneg(items, k + 1);
        lemma_add_item_ok(m, parent, items[k]);
        let ma = add_item_spec(m, parent, items[k]);
        assert(open_chain(ma, parent));
        lemma_add_items_ok(ma, parent, items, k + 1);
        let m2 = add_items_spec(ma, parent, items, k + 1);
        assert(m2 == add_items_spec(m, parent, items, k));
        assert forall|i: int| old_len <= i < ma.nodes.len() implies node_ok(m2, i) by {
            assert(node_ok(ma, i));
            assert(m2.nodes[i] == ma.nodes[i]);
            lemma_node_ok_same(ma, m2, i);
        }
        assert forall|t: int| 0 <= t < m.nodes[parent].children.len() implies m2.nodes[parent].children[t] == m.nodes[parent].children[t] by {
            assert(ma.nodes[parent].children[t] == m.nodes[parent].children[t]);
        }
    }
}

/// The arena built from a top-level entry list is well formed, with one
/// node per entry plus the root.
pub proof fn lemma_build_menu_wf(items: Seq<TrayMenuItem>)
    requires
        1 + count_items(items) <= i32::MAX as int,
    ensures
        menu_wf(build_menu(items)),
        build_menu(items).nodes.len() == 1 + count_items(items),
{
    let m0 = empty_menu();
    lemma_count_items_from_nonneg(items, 0);
    assert(open_chain(m0, 0));
    lemma_add_items_ok(m0, 0, items, 0);
    let m = add_items_spec(m0, 0, items, 0);
    let n = m.nodes.len() as int;
    let mf = set_span(m, 0, n);
    assert(mf == build_menu(items));
    assert(node_ok(mf, 0));
    assert forall|i: int| 0 < i < n implies node_ok(mf, i) by {
        assert(node_ok(m, i));
        lemma_node_ok_same(m, mf, i);
    }
    assert(menu_wf(mf));
}

} // verus!
