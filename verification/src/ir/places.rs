use crate::ir::node::NodeModel;
use crate::ir::traverse::{preorder, preorder_all};
use vstd::prelude::*;

verus! {

/// The node at a place in a tree, the place given by the way to it from
/// the top: which child to take first, which child of that next, and so
/// on. Nothing where the way leads out of the tree.
pub open spec fn node_at(n: NodeModel, path: Seq<int>) -> Option<NodeModel>
    decreases path.len(),
{
    if path.len() == 0 {
        Some(n)
    } else if 0 <= path[0] < n.children.len() {
        node_at(n.children[path[0]], path.drop_first())
    } else {
        None
    }
}

/// Where the walk of a tree has the node at a place: after the top, and
/// after the whole walks of the children to the left of the way.
pub open spec fn place_of(n: NodeModel, path: Seq<int>) -> int
    decreases path.len(),
{
    if path.len() == 0 {
        0
    } else if 0 <= path[0] < n.children.len() {
        1 + preorder_all(n.children.subrange(0, path[0])).len() + place_of(
            n.children[path[0]],
            path.drop_first(),
        )
    } else {
        0
    }
}

/// The walk of a forest is the walk of its trees to the left of one tree,
/// then the walk of that tree, then the walk of the trees to its right.
pub proof fn lemma_walk_splits(s: Seq<NodeModel>, i: int)
    requires
        0 <= i < s.len(),
    ensures
        preorder_all(s) == preorder_all(s.subrange(0, i)) + preorder(s[i]) + preorder_all(
            s.subrange(i + 1, s.len() as int),
        ),
        preorder_all(s.subrange(0, i + 1)) == preorder_all(s.subrange(0, i)) + preorder(s[i]),
    decreases i,
{
    let rest = s.drop_first();
    if i == 0 {
        assert(s.subrange(0, 0) =~= Seq::<NodeModel>::empty());
        assert(s.subrange(1, s.len() as int) =~= rest);
        assert(s.subrange(0, 1).first() == s[0]);
        assert(s.subrange(0, 1).drop_first() =~= Seq::<NodeModel>::empty());
        assert(preorder_all(Seq::<NodeModel>::empty()) =~= Seq::<NodeModel>::empty());
        assert(preorder_all(s.subrange(0, 1)) =~= preorder(s[0]));
        assert(preorder_all(s) =~= preorder_all(s.subrange(0, 0)) + preorder(s[0]) + preorder_all(
            s.subrange(1, s.len() as int),
        ));
        assert(preorder_all(s.subrange(0, 1)) =~= preorder_all(s.subrange(0, 0)) + preorder(s[0]));
    } else {
        lemma_walk_splits(rest, i - 1);
        assert(rest.subrange(0, i - 1) =~= s.subrange(1, i));
        assert(rest.subrange(0, i) =~= s.subrange(1, i + 1));
        assert(rest.subrange(i, rest.len() as int) =~= s.subrange(i + 1, s.len() as int));
        assert(rest[i - 1] == s[i]);
        assert(s.subrange(0, i).first() == s[0]);
        assert(s.subrange(0, i).drop_first() =~= s.subrange(1, i));
        assert(s.subrange(0, i + 1).first() == s[0]);
        assert(s.subrange(0, i + 1).drop_first() =~= s.subrange(1, i + 1));
        assert(preorder_all(s) =~= preorder_all(s.subrange(0, i)) + preorder(s[i]) + preorder_all(
            s.subrange(i + 1, s.len() as int),
        ));
        assert(preorder_all(s.subrange(0, i + 1)) =~= preorder_all(s.subrange(0, i)) + preorder(
            s[i],
        ));
    }
}

/// The walks of the trees to the left of a tree grow with the tree.
pub proof fn lemma_walk_prefix_grows(s: Seq<NodeModel>, i: int, j: int)
    requires
        0 <= i <= j <= s.len(),
    ensures
        preorder_all(s.subrange(0, i)).len() <= preorder_all(s.subrange(0, j)).len(),
    decreases j - i,
{
    if i < j {
        lemma_walk_splits(s, j - 1);
        lemma_walk_prefix_grows(s, i, j - 1);
    }
}

/// The walk has the node of each place of the tree at the place that
/// `place_of` gives.
pub proof fn lemma_place_holds_node(n: NodeModel, path: Seq<int>)
    requires
        node_at(n, path) is Some,
    ensures
        0 <= place_of(n, path) < preorder(n).len(),
        preorder(n)[place_of(n, path)] == node_at(n, path)->Some_0,
    decreases path.len(),
{
    if path.len() > 0 {
        let i = path[0];
        let child = n.children[i];
        lemma_place_holds_node(child, path.drop_first());
        lemma_walk_splits(n.children, i);
    }
}

/// Two places of a tree are at two places of its walk.
pub proof fn lemma_places_differ(n: NodeModel, p: Seq<int>, q: Seq<int>)
    requires
        node_at(n, p) is Some,
        node_at(n, q) is Some,
        p != q,
    ensures
        place_of(n, p) != place_of(n, q),
    decreases p.len(),
{
    if p.len() == 0 {
        assert(q.len() > 0) by {
            if q.len() == 0 {
                assert(p =~= q);
            }
        }
        lemma_place_holds_node(n.children[q[0]], q.drop_first());
    } else if q.len() == 0 {
        lemma_place_holds_node(n.children[p[0]], p.drop_first());
    } else {
        let i = p[0];
        let j = q[0];
        lemma_place_holds_node(n.children[i], p.drop_first());
        lemma_place_holds_node(n.children[j], q.drop_first());
        if i == j {
            assert(p.drop_first() != q.drop_first()) by {
                if p.drop_first() == q.drop_first() {
                    assert(p =~= seq![i] + p.drop_first());
                    assert(q =~= seq![j] + q.drop_first());
                }
            }
            lemma_places_differ(n.children[i], p.drop_first(), q.drop_first());
        } else if i < j {
            lemma_walk_splits(n.children, i);
            lemma_walk_prefix_grows(n.children, i + 1, j);
        } else {
            lemma_walk_splits(n.children, j);
            lemma_walk_prefix_grows(n.children, j + 1, i);
        }
    }
}

/// The tree of a forest whose walk holds place `k` of the walk of the forest.
proof fn lemma_tree_holding(s: Seq<NodeModel>, k: int, upto: int) -> (i: int)
    requires
        0 <= upto <= s.len(),
        0 <= k < preorder_all(s.subrange(0, upto)).len(),
    ensures
        0 <= i < upto,
        preorder_all(s.subrange(0, i)).len() <= k < preorder_all(s.subrange(0, i + 1)).len(),
    decreases upto,
{
    if upto == 0 {
        assert(s.subrange(0, 0) =~= Seq::<NodeModel>::empty());
        assert(preorder_all(s.subrange(0, 0)) =~= Seq::<NodeModel>::empty());
        0
    } else if k < preorder_all(s.subrange(0, upto - 1)).len() {
        lemma_tree_holding(s, k, upto - 1)
    } else {
        upto - 1
    }
}

/// Each place of the walk is the place of a node of the tree: the way
/// to that node.
pub proof fn lemma_place_has_node(n: NodeModel, k: int) -> (path: Seq<int>)
    requires
        0 <= k < preorder(n).len(),
    ensures
        node_at(n, path) is Some,
        place_of(n, path) == k,
    decreases n,
{
    if k == 0 {
        Seq::empty()
    } else {
        let s = n.children;
        assert(s.subrange(0, s.len() as int) =~= s);
        let i = lemma_tree_holding(s, k - 1, s.len() as int);
        lemma_walk_splits(s, i);
        let inner = k - 1 - preorder_all(s.subrange(0, i)).len();
        let rest = lemma_place_has_node(s[i], inner);
        let path = seq![i] + rest;
        assert(path[0] == i);
        assert(path.drop_first() =~= rest);
        path
    }
}

} // verus!
