use crate::ir::node::{NodeModel, NodeType};
use crate::ir::store::{child_added, created, removed, root_replaced, updated, IRModel};
use crate::ir::traverse::{lemma_preorder_len, lemma_preorder_reaches, preorder, reaches, tree_size};
use vstd::prelude::*;

verus! {

/// One change that can be made to a unit.
pub enum Change {
    Create { node_type: NodeType },
    AddChild { parent_id: usize, child_id: usize },
    Remove { id: usize },
    Update { node: NodeModel },
    ReplaceRoot { root: NodeModel },
    SetSourcePath { path: Seq<char> },
}

/// Whether a change may be made to a unit: a node can be created while
/// the counter has not reached the end of its range, and a new root must
/// be a program with the id of the root.
pub open spec fn permitted(ir: IRModel, c: Change) -> bool {
    match c {
        Change::Create { node_type } => ir.next_id < usize::MAX,
        Change::ReplaceRoot { root } => root.id == ir.root_id && root.node_type
            == NodeType::Program,
        _ => true,
    }
}

/// The unit after a change.
pub open spec fn changed(ir: IRModel, c: Change) -> IRModel {
    match c {
        Change::Create { node_type } => created(ir, node_type),
        Change::AddChild { parent_id, child_id } => child_added(ir, parent_id, child_id),
        Change::Remove { id } => removed(ir, id),
        Change::Update { node } => updated(ir, node),
        Change::ReplaceRoot { root } => root_replaced(ir, root),
        Change::SetSourcePath { path } => IRModel { source_path: Some(path), ..ir },
    }
}

/// The unit after the first `upto` of a list of changes.
pub open spec fn changed_by(ir: IRModel, changes: Seq<Change>, upto: int) -> IRModel
    decreases upto,
{
    if upto <= 0 {
        ir
    } else {
        changed(changed_by(ir, changes, upto - 1), changes[upto - 1])
    }
}

/// Whether each of the first `upto` changes may be made when its turn comes.
pub open spec fn all_permitted(ir: IRModel, changes: Seq<Change>, upto: int) -> bool {
    forall|k: int| 0 <= k < upto ==> permitted(changed_by(ir, changes, k), #[trigger] changes[k])
}

/// A change keeps a unit well formed, never lowers the counter of ids,
/// and keeps the root where it is. Only the creation of a node raises
/// the counter, by one, and the id it uses is not on file before.
pub proof fn lemma_change_keeps_wf(ir: IRModel, c: Change)
    requires
        ir.wf(),
        permitted(ir, c),
    ensures
        changed(ir, c).wf(),
        changed(ir, c).root_id == ir.root_id,
        changed(ir, c).next_id >= ir.next_id,
        c is Create ==> changed(ir, c).next_id == ir.next_id + 1 && !ir.nodes.contains_key(
            ir.next_id,
        ) && changed(ir, c).nodes.contains_key(ir.next_id),
        !(c is Create) ==> changed(ir, c).next_id == ir.next_id,
{
    let after = changed(ir, c);
    assert forall|k: usize| #[trigger] after.nodes.contains_key(k) implies k < after.next_id
        && after.nodes[k].id == k by {
        if ir.nodes.contains_key(k) {
            assert(k < ir.next_id && ir.nodes[k].id == k);
        }
    }
    if ir.nodes.contains_key(ir.next_id) {
        assert(ir.next_id < ir.next_id);
    }
}

/// Through any list of changes the counter of ids never goes down.
pub proof fn lemma_counter_never_decreases(ir: IRModel, changes: Seq<Change>, from: int, upto: int)
    requires
        ir.wf(),
        0 <= from <= upto <= changes.len(),
        all_permitted(ir, changes, upto),
    ensures
        changed_by(ir, changes, upto).wf(),
        changed_by(ir, changes, from).next_id <= changed_by(ir, changes, upto).next_id,
    decreases upto,
{
    if upto > 0 {
        if from < upto {
            lemma_counter_never_decreases(ir, changes, from, upto - 1);
        } else {
            lemma_counter_never_decreases(ir, changes, from - 1, upto - 1);
        }
        assert(permitted(changed_by(ir, changes, upto - 1), changes[upto - 1]));
        lemma_change_keeps_wf(changed_by(ir, changes, upto - 1), changes[upto - 1]);
    }
}

/// The ids that `create_node` hands out grow strictly over the life of
/// a unit, whatever is done to the unit in between, removals included:
/// of two creations the later one gets the larger id.
pub proof fn lemma_created_ids_increase(ir: IRModel, changes: Seq<Change>, first: int, second: int)
    requires
        ir.wf(),
        0 <= first < second < changes.len(),
        all_permitted(ir, changes, changes.len() as int),
        changes[first] is Create,
        changes[second] is Create,
    ensures
        changed_by(ir, changes, first).next_id < changed_by(ir, changes, second).next_id,
{
    lemma_counter_never_decreases(ir, changes, first, first);
    assert(permitted(changed_by(ir, changes, first), changes[first]));
    lemma_change_keeps_wf(changed_by(ir, changes, first), changes[first]);
    lemma_counter_never_decreases(ir, changes, first + 1, second);
}

/// What a walk holds: as many nodes as the tree under the root has
/// places, and exactly the nodes that the root reaches.
pub proof fn lemma_walk_covers_the_tree(ir: IRModel, m: NodeModel)
    ensures
        preorder(ir.root()).len() == tree_size(ir.root()),
        preorder(ir.root()).contains(m) <==> reaches(ir.root(), m),
{
    lemma_preorder_len(ir.root());
    lemma_preorder_reaches(ir.root(), m);
}

/// Two walks of a unit that was not changed in between give the same
/// nodes in the same order.
pub proof fn lemma_walks_agree(ir: IRModel, first: Seq<NodeModel>, second: Seq<NodeModel>)
    requires
        first == preorder(ir.root()),
        second == preorder(ir.root()),
    ensures
        first == second,
{
}

} // verus!
