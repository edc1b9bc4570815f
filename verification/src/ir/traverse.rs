use crate::ir::node::{refs_model, NodeModel, NodeRef};
use vstd::prelude::*;

verus! {

/// The nodes of a tree in the order of a depth-first walk that takes a node
/// before its children and the children from left to right.
pub open spec fn preorder(n: NodeModel) -> Seq<NodeModel>
    decreases n,
{
    seq![n] + preorder_all(n.children)
}

/// The walks of the trees of `s`, one after the other.
pub open spec fn preorder_all(s: Seq<NodeModel>) -> Seq<NodeModel>
    decreases s,
{
    if s.len() == 0 {
        Seq::empty()
    } else {
        preorder(s.first()) + preorder_all(s.drop_first())
    }
}

/// What is still to be walked when `stack` holds the roots that wait, the
/// next one on top.
pub open spec fn pending(stack: Seq<NodeModel>) -> Seq<NodeModel>
    decreases stack.len(),
{
    if stack.len() == 0 {
        Seq::empty()
    } else {
        preorder(stack.last()) + pending(stack.drop_last())
    }
}

/// The number of nodes of a tree, each place in the tree counted once.
pub open spec fn tree_size(n: NodeModel) -> nat
    decreases n,
{
    1 + forest_size(n.children)
}

pub open spec fn forest_size(s: Seq<NodeModel>) -> nat
    decreases s,
{
    if s.len() == 0 {
        0
    } else {
        tree_size(s.first()) + forest_size(s.drop_first())
    }
}

/// Whether `m` stands somewhere in the tree under `n`, `n` itself included.
pub open spec fn reaches(n: NodeModel, m: NodeModel) -> bool
    decreases n,
{
    n == m || reaches_any(n.children, m)
}

pub open spec fn reaches_any(s: Seq<NodeModel>, m: NodeModel) -> bool
    decreases s,
{
    if s.len() == 0 {
        false
    } else {
        reaches(s.first(), m) || reaches_any(s.drop_first(), m)
    }
}

/// The walk has one entry for each place in the tree.
pub proof fn lemma_preorder_len(n: NodeModel)
    ensures
        preorder(n).len() == tree_size(n),
    decreases n,
{
    lemma_preorder_all_len(n.children);
}

pub proof fn lemma_preorder_all_len(s: Seq<NodeModel>)
    ensures
        preorder_all(s).len() == forest_size(s),
    decreases s,
{
    if s.len() > 0 {
        lemma_preorder_len(s.first());
        lemma_preorder_all_len(s.drop_first());
    }
}

/// The walk holds exactly the nodes that the root reaches.
pub proof fn lemma_preorder_reaches(n: NodeModel, m: NodeModel)
    ensures
        preorder(n).contains(m) <==> reaches(n, m),
    decreases n,
{
    lemma_preorder_all_reaches(n.children, m);
    let head = seq![n];
    let rest = preorder_all(n.children);
    if head.contains(m) {
        let i = choose|i: int| 0 <= i < head.len() && head[i] == m;
        assert((head + rest)[i] == m);
    }
    if rest.contains(m) {
        let i = choose|i: int| 0 <= i < rest.len() && rest[i] == m;
        assert((head + rest)[head.len() + i] == m);
    }
    if n == m {
        assert(head[0] == m);
    }
}

pub proof fn lemma_preorder_all_reaches(s: Seq<NodeModel>, m: NodeModel)
    ensures
        preorder_all(s).contains(m) <==> reaches_any(s, m),
    decreases s,
{
    if s.len() > 0 {
        lemma_preorder_reaches(s.first(), m);
        lemma_preorder_all_reaches(s.drop_first(), m);
        let head = preorder(s.first());
        let rest = preorder_all(s.drop_first());
        if head.contains(m) {
            let i = choose|i: int| 0 <= i < head.len() && head[i] == m;
            assert((head + rest)[i] == m);
        }
        if rest.contains(m) {
            let i = choose|i: int| 0 <= i < rest.len() && rest[i] == m;
            assert((head + rest)[head.len() + i] == m);
        }
    }
}

/// A forest with one more tree has the size of both.
pub proof fn lemma_forest_size_push(s: Seq<NodeModel>, x: NodeModel)
    ensures
        forest_size(s.push(x)) == forest_size(s) + tree_size(x),
    decreases s.len(),
{
    if s.len() == 0 {
        assert(s.push(x).drop_first() =~= Seq::<NodeModel>::empty());
        assert(forest_size(s.push(x).drop_first()) == 0);
    } else {
        assert(s.push(x).drop_first() =~= s.drop_first().push(x));
        lemma_forest_size_push(s.drop_first(), x);
    }
}

/// What a forest with one more tree reaches is what both reach.
pub proof fn lemma_reaches_any_push(s: Seq<NodeModel>, x: NodeModel, m: NodeModel)
    ensures
        reaches_any(s.push(x), m) <==> reaches_any(s, m) || reaches(x, m),
    decreases s.len(),
{
    if s.len() == 0 {
        assert(s.push(x).drop_first() =~= Seq::<NodeModel>::empty());
        assert(!reaches_any(s.push(x).drop_first(), m));
    } else {
        assert(s.push(x).drop_first() =~= s.drop_first().push(x));
        lemma_reaches_any_push(s.drop_first(), x, m);
    }
}

/// Pushing the trees of `kids[from..]` in reverse on top of `base` leaves
/// their walks, left to right, ahead of what `base` still holds.
pub proof fn lemma_pending_push(stack: Seq<NodeModel>, kids: Seq<NodeModel>, from: int)
    requires
        0 < from <= kids.len(),
    ensures
        pending(stack.push(kids[from - 1])) == preorder(kids[from - 1]) + pending(stack),
        preorder_all(kids.subrange(from - 1, kids.len() as int)) == preorder(kids[from - 1])
            + preorder_all(kids.subrange(from, kids.len() as int)),
{
    assert(stack.push(kids[from - 1]).drop_last() == stack);
    let tail = kids.subrange(from - 1, kids.len() as int);
    assert(tail.first() == kids[from - 1]);
    assert(tail.drop_first() == kids.subrange(from, kids.len() as int));
}

/// Walks the tree under `root` depth first, a node before its children,
/// the children from left to right, and returns the nodes in the order in
/// which they were met.
pub fn walk(root: &NodeRef) -> (order: Vec<NodeRef>)
    ensures
        refs_model(order@) == preorder(root@),
        order.len() == tree_size(root@),
{
    let mut order: Vec<NodeRef> = Vec::new();
    let mut stack: Vec<NodeRef> = Vec::new();
    stack.push(root.share());
    let ghost whole = preorder(root@);
    proof {
        let st = refs_model(stack@);
        assert(st.last() == root@);
        assert(st.drop_last() =~= Seq::<NodeModel>::empty());
        assert(pending(st.drop_last()) =~= Seq::<NodeModel>::empty());
        assert(pending(st) =~= whole);
        assert(refs_model(order@) =~= Seq::<NodeModel>::empty());
    }
    while stack.len() > 0
        invariant
            refs_model(order@) + pending(refs_model(stack@)) == whole,
        decreases whole.len() - order.len(),
    {
        let ghost before = refs_model(stack@);
        let ghost done = refs_model(order@);
        let node = stack.pop().unwrap();
        let ghost base = refs_model(stack@);
        assert(base =~= before.drop_last());
        assert(node@ == before.last());
        let ghost kids = node@.children;
        assert(kids == refs_model(node.0.children@));
        let mut j: usize = node.0.children.len();
        assert(kids.subrange(j as int, kids.len() as int) =~= Seq::<NodeModel>::empty());
        while j > 0
            invariant
                j <= node.0.children.len(),
                kids == refs_model(node.0.children@),
                pending(refs_model(stack@)) == preorder_all(
                    kids.subrange(j as int, kids.len() as int),
                ) + pending(base),
            decreases j,
        {
            let ghost below = refs_model(stack@);
            proof {
                lemma_pending_push(below, kids, j as int);
            }
            j = j - 1;
            stack.push(node.0.children[j].share());
            assert(refs_model(stack@) =~= below.push(kids[j as int]));
        }
        assert(kids.subrange(0, kids.len() as int) =~= kids);
        order.push(node);
        assert(refs_model(order@) =~= done.push(before.last()));
        assert(refs_model(order@) + pending(refs_model(stack@)) =~= whole);
    }
    assert(pending(refs_model(stack@)) =~= Seq::<NodeModel>::empty());
    assert(refs_model(order@) =~= whole);
    proof {
        lemma_preorder_len(root@);
    }
    order
}

} // verus!
