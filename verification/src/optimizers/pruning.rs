use crate::ir::node::{refs_model, NodeModel, NodeRef, NodeType};
use crate::ir::traverse::{
    forest_size, lemma_forest_size_push, lemma_reaches_any_push, preorder, reaches, reaches_any,
    tree_size, walk,
};
use crate::text::{contains_name, names_of};
use vstd::prelude::*;

verus! {

/// Which declarations a pruning pass may remove.
#[derive(Debug, Clone, Copy, PartialEq, Eq, Structural)]
pub enum PruneScope {
    /// Function, variable and class declarations.
    Declarations,
    /// Import and export declarations.
    ModuleLinks,
}

pub open spec fn in_scope(scope: PruneScope, t: NodeType) -> bool {
    match scope {
        PruneScope::Declarations => t == NodeType::FunctionDeclaration || t
            == NodeType::VariableDeclaration || t == NodeType::ClassDeclaration,
        PruneScope::ModuleLinks => t == NodeType::ImportDeclaration || t
            == NodeType::ExportDeclaration,
    }
}

/// Whether a node of this kind binds the identifier that is its first child.
pub open spec fn binds(t: NodeType) -> bool {
    t == NodeType::FunctionDeclaration || t == NodeType::VariableDeclaration || t
        == NodeType::ClassDeclaration || t == NodeType::ImportDeclaration || t
        == NodeType::ExportDeclaration
}

/// The name of an identifier node.
pub open spec fn identifier_name(n: NodeModel) -> Option<Seq<char>> {
    if n.node_type == NodeType::Identifier && n.values.contains_key("name"@) && n.values["name"@] is Text {
        Some(n.values["name"@]->Text_0)
    } else {
        None
    }
}

/// The name that a declaration binds: that of its first child, where this
/// is an identifier.
pub open spec fn bound_name(n: NodeModel) -> Option<Seq<char>> {
    if binds(n.node_type) && n.children.len() > 0 {
        identifier_name(n.children[0])
    } else {
        None
    }
}

/// Whether place `p` of a walk is where a declaration binds its name: the
/// place right after a declaration that has children.
pub open spec fn is_binder_at(order: Seq<NodeModel>, p: int) -> bool {
    p > 0 && binds(order[p - 1].node_type) && order[p - 1].children.len() > 0
}

/// The names read in the first `upto` places of a walk, in the order of
/// the walk: those of the identifiers that no declaration binds there.
pub open spec fn read_names(order: Seq<NodeModel>, upto: int) -> Seq<Seq<char>>
    decreases upto,
{
    if upto <= 0 {
        Seq::empty()
    } else {
        let rest = read_names(order, upto - 1);
        match identifier_name(order[upto - 1]) {
            Some(name) => if is_binder_at(order, upto - 1) {
                rest
            } else {
                rest.push(name)
            },
            None => rest,
        }
    }
}

/// Every name read anywhere in a tree.
pub open spec fn reads(tree: NodeModel) -> Seq<Seq<char>> {
    read_names(preorder(tree), preorder(tree).len() as int)
}

/// Whether a pass of this scope drops the node: it is a declaration in
/// scope whose bound name is neither read nor preserved.
pub open spec fn removable(
    n: NodeModel,
    scope: PruneScope,
    used: Seq<Seq<char>>,
    preserved: Seq<Seq<char>>,
) -> bool {
    in_scope(scope, n.node_type) && bound_name(n) is Some && !used.contains(bound_name(n)->Some_0)
        && !preserved.contains(bound_name(n)->Some_0)
}

/// The tree without the removable declarations under it. The node at the
/// top always stays. Pruning works on the tree of children: the
/// attributes of every node that stays are left as they are, also where
/// an attribute holds nodes.
pub open spec fn pruned(
    n: NodeModel,
    scope: PruneScope,
    used: Seq<Seq<char>>,
    preserved: Seq<Seq<char>>,
) -> NodeModel
    decreases n,
{
    NodeModel { children: pruned_children(n.children, scope, used, preserved), ..n }
}

pub open spec fn pruned_children(
    s: Seq<NodeModel>,
    scope: PruneScope,
    used: Seq<Seq<char>>,
    preserved: Seq<Seq<char>>,
) -> Seq<NodeModel>
    decreases s,
{
    if s.len() == 0 {
        Seq::empty()
    } else {
        let init = pruned_children(s.drop_last(), scope, used, preserved);
        if removable(s[s.len() - 1], scope, used, preserved) {
            init
        } else {
            init.push(pruned(s[s.len() - 1], scope, used, preserved))
        }
    }
}

/// The tree after pruning round by round, each round against the names
/// read in the tree as the round finds it, until a round removes nothing.
pub open spec fn eliminated(n: NodeModel, scope: PruneScope, preserved: Seq<Seq<char>>) -> NodeModel
    decreases tree_size(n),
{
    let next = pruned(n, scope, reads(n), preserved);
    if tree_size(next) < tree_size(n) {
        eliminated(next, scope, preserved)
    } else {
        n
    }
}

/// Elimination keeps the node at the top in all but its children.
pub proof fn lemma_eliminated_keeps_top(n: NodeModel, scope: PruneScope, preserved: Seq<Seq<char>>)
    ensures
        eliminated(n, scope, preserved).id == n.id,
        eliminated(n, scope, preserved).node_type == n.node_type,
        eliminated(n, scope, preserved).values == n.values,
        eliminated(n, scope, preserved).location == n.location,
        eliminated(n, scope, preserved).parent == n.parent,
    decreases tree_size(n),
{
    let next = pruned(n, scope, reads(n), preserved);
    if tree_size(next) < tree_size(n) {
        lemma_eliminated_keeps_top(next, scope, preserved);
    }
}

/// A name that is preserved protects every declaration that binds it.
pub proof fn lemma_preserved_names_stay(
    n: NodeModel,
    scope: PruneScope,
    used: Seq<Seq<char>>,
    preserved: Seq<Seq<char>>,
)
    requires
        bound_name(n) is Some,
        preserved.contains(bound_name(n)->Some_0),
    ensures
        !removable(n, scope, used, preserved),
{
}

/// Pruning never makes a tree larger, and where it leaves the size as it
/// was, nothing under the top of the tree was removable.
pub proof fn lemma_pruned_size(
    n: NodeModel,
    scope: PruneScope,
    used: Seq<Seq<char>>,
    preserved: Seq<Seq<char>>,
)
    ensures
        tree_size(pruned(n, scope, used, preserved)) <= tree_size(n),
        tree_size(pruned(n, scope, used, preserved)) == tree_size(n) ==> forall|m: NodeModel|
            reaches_any(n.children, m) ==> !removable(m, scope, used, preserved),
    decreases n,
{
    lemma_pruned_children_size(n.children, scope, used, preserved);
}

pub proof fn lemma_pruned_children_size(
    s: Seq<NodeModel>,
    scope: PruneScope,
    used: Seq<Seq<char>>,
    preserved: Seq<Seq<char>>,
)
    ensures
        forest_size(pruned_children(s, scope, used, preserved)) <= forest_size(s),
        forest_size(pruned_children(s, scope, used, preserved)) == forest_size(s) ==> forall|
            m: NodeModel,
        |
            reaches_any(s, m) ==> !removable(m, scope, used, preserved),
    decreases s,
{
    if s.len() > 0 {
        let init = s.drop_last();
        let last = s[s.len() - 1];
        assert(s =~= init.push(last));
        lemma_pruned_children_size(init, scope, used, preserved);
        lemma_pruned_size(last, scope, used, preserved);
        lemma_forest_size_push(init, last);
        let kept = pruned_children(init, scope, used, preserved);
        if !removable(last, scope, used, preserved) {
            lemma_forest_size_push(kept, pruned(last, scope, used, preserved));
        }
        if forest_size(pruned_children(s, scope, used, preserved)) == forest_size(s) {
            assert(!removable(last, scope, used, preserved));
            assert(pruned_children(s, scope, used, preserved) == kept.push(
                pruned(last, scope, used, preserved),
            ));
            assert(forest_size(kept) == forest_size(init));
            assert(tree_size(pruned(last, scope, used, preserved)) == tree_size(last));
            assert forall|m: NodeModel| reaches_any(s, m) implies !removable(
                m,
                scope,
                used,
                preserved,
            ) by {
                lemma_reaches_any_push(init, last, m);
                if !reaches_any(init, m) {
                    assert(reaches(last, m));
                    if m != last {
                        assert(reaches_any(last.children, m));
                    }
                }
            }
        }
    }
}

/// What elimination gives is at rest: another round of pruning, against
/// the names that are read in it, would not make it smaller.
pub proof fn lemma_eliminated_is_at_rest(n: NodeModel, scope: PruneScope, preserved: Seq<Seq<char>>)
    ensures
        ({
            let r = eliminated(n, scope, preserved);
            tree_size(pruned(r, scope, reads(r), preserved)) >= tree_size(r)
        }),
    decreases tree_size(n),
{
    let next = pruned(n, scope, reads(n), preserved);
    if tree_size(next) < tree_size(n) {
        lemma_eliminated_is_at_rest(next, scope, preserved);
    }
}

/// After elimination no dead declaration is left: of the declarations in
/// scope under the top of the tree, each binds a name that is read
/// somewhere in the tree that is left, or a preserved name, or no name.
pub proof fn lemma_no_dead_declaration_is_left(
    n: NodeModel,
    scope: PruneScope,
    preserved: Seq<Seq<char>>,
    m: NodeModel,
)
    requires
        reaches_any(eliminated(n, scope, preserved).children, m),
        in_scope(scope, m.node_type),
        bound_name(m) is Some,
    ensures
        reads(eliminated(n, scope, preserved)).contains(bound_name(m)->Some_0)
            || preserved.contains(bound_name(m)->Some_0),
{
    let r = eliminated(n, scope, preserved);
    lemma_eliminated_is_at_rest(n, scope, preserved);
    lemma_pruned_size(r, scope, reads(r), preserved);
    assert(!removable(m, scope, reads(r), preserved));
}

/// Whether a kind of node is in the scope of a pass.
pub fn scope_covers(scope: PruneScope, t: NodeType) -> (r: bool)
    ensures
        r == in_scope(scope, t),
{
    match scope {
        PruneScope::Declarations => t == NodeType::FunctionDeclaration || t
            == NodeType::VariableDeclaration || t == NodeType::ClassDeclaration,
        PruneScope::ModuleLinks => t == NodeType::ImportDeclaration || t
            == NodeType::ExportDeclaration,
    }
}

pub fn is_binding_kind(t: NodeType) -> (r: bool)
    ensures
        r == binds(t),
{
    t == NodeType::FunctionDeclaration || t == NodeType::VariableDeclaration || t
        == NodeType::ClassDeclaration || t == NodeType::ImportDeclaration || t
        == NodeType::ExportDeclaration
}

/// The name of the node where it is an identifier that has one.
pub fn name_of_identifier(node: &NodeRef) -> (name: Option<&str>)
    ensures
        match name {
            Some(s) => identifier_name(node@) == Some(s@),
            None => identifier_name(node@) is None,
        },
{
    if node.0.node_type == NodeType::Identifier {
        node.0.get_string_value("name")
    } else {
        None
    }
}

/// The names read in a walk, in the order of the walk.
pub fn collect_reads(order: &Vec<NodeRef>) -> (used: Vec<String>)
    ensures
        names_of(used@) == read_names(refs_model(order@), order.len() as int),
{
    let mut used: Vec<String> = Vec::new();
    let mut i: usize = 0;
    assert(names_of(used@) =~= read_names(refs_model(order@), 0));
    while i < order.len()
        invariant
            i <= order.len(),
            names_of(used@) == read_names(refs_model(order@), i as int),
        decreases order.len() - i,
    {
        let ghost seen = names_of(used@);
        let ghost models = refs_model(order@);
        assert(models[i as int] == order@[i as int]@);
        if let Some(name) = name_of_identifier(&order[i]) {
            let binder = i > 0 && is_binding_kind(order[i - 1].0.node_type) && order[i
                - 1].0.children.len() > 0;
            assert(i > 0 ==> models[i - 1] == order@[i - 1]@);
            assert(binder == is_binder_at(models, i as int));
            if !binder {
                used.push(name.to_owned());
                assert(names_of(used@) =~= seen.push(name@));
            }
        }
        i = i + 1;
    }
    used
}

/// Whether a pass of this scope drops the node.
pub fn is_removable(
    node: &NodeRef,
    scope: PruneScope,
    used: &Vec<String>,
    preserved: &Vec<String>,
) -> (r: bool)
    ensures
        r == removable(node@, scope, names_of(used@), names_of(preserved@)),
{
    if !scope_covers(scope, node.0.node_type) {
        return false;
    }
    if node.0.children.len() == 0 {
        return false;
    }
    assert(node@.children[0] == node.0.children@[0]@);
    match name_of_identifier(&node.0.children[0]) {
        Some(name) => !contains_name(used, name) && !contains_name(preserved, name),
        None => false,
    }
}

/// The tree under `node` without the removable declarations. Nodes that
/// an attribute holds are not pruned.
pub fn prune_tree(
    node: &NodeRef,
    scope: PruneScope,
    used: &Vec<String>,
    preserved: &Vec<String>,
) -> (r: NodeRef)
    ensures
        r@ == pruned(node@, scope, names_of(used@), names_of(preserved@)),
    decreases node@,
{
    let ghost kids_model = node@.children;
    let mut kids: Vec<NodeRef> = Vec::new();
    let mut i: usize = 0;
    assert(kids_model.subrange(0, 0) =~= Seq::<NodeModel>::empty());
    assert(refs_model(kids@) =~= Seq::<NodeModel>::empty());
    while i < node.0.children.len()
        invariant
            i <= node.0.children.len(),
            kids_model == node@.children,
            refs_model(kids@) == pruned_children(
                kids_model.subrange(0, i as int),
                scope,
                names_of(used@),
                names_of(preserved@),
            ),
        decreases node.0.children.len() - i,
    {
        let ghost before = refs_model(kids@);
        let ghost prefix = kids_model.subrange(0, i + 1);
        assert(prefix.drop_last() =~= kids_model.subrange(0, i as int));
        assert(prefix[prefix.len() - 1] == kids_model[i as int]);
        assert(node.0.children@[i as int]@ == kids_model[i as int]);
        if !is_removable(&node.0.children[i], scope, used, preserved) {
            let kid = prune_tree(&node.0.children[i], scope, used, preserved);
            kids.push(kid);
            assert(refs_model(kids@) =~= before.push(kid@));
        }
        i = i + 1;
    }
    assert(kids_model.subrange(0, i as int) =~= kids_model);
    let mut n = node.0.duplicate();
    n.children = kids;
    NodeRef::new(n)
}

/// Prunes the tree under `root` round by round until a round removes
/// nothing. Each round first walks the whole tree for the names it reads,
/// and only then removes.
pub fn eliminate(root: &NodeRef, scope: PruneScope, preserved: &Vec<String>) -> (r: NodeRef)
    ensures
        r@ == eliminated(root@, scope, names_of(preserved@)),
        r@.values == root@.values,
{
    let mut current = root.share();
    loop
        invariant
            eliminated(current@, scope, names_of(preserved@)) == eliminated(
                root@,
                scope,
                names_of(preserved@),
            ),
        decreases tree_size(current@),
    {
        let order = walk(&current);
        let used = collect_reads(&order);
        let next = prune_tree(&current, scope, &used, preserved);
        let after = walk(&next);
        if after.len() < order.len() {
            current = next;
        } else {
            proof {
                lemma_eliminated_keeps_top(root@, scope, names_of(preserved@));
            }
            return current;
        }
    }
}

/// How many nodes of a walk are of one kind.
pub open spec fn count_kind(order: Seq<NodeModel>, t: NodeType, upto: int) -> nat
    decreases upto,
{
    if upto <= 0 {
        0
    } else {
        count_kind(order, t, upto - 1) + if order[upto - 1].node_type == t {
            1nat
        } else {
            0nat
        }
    }
}

pub fn count_nodes_of_kind(order: &Vec<NodeRef>, t: NodeType) -> (n: usize)
    ensures
        n == count_kind(refs_model(order@), t, order.len() as int),
{
    let mut n: usize = 0;
    let mut i: usize = 0;
    while i < order.len()
        invariant
            i <= order.len(),
            n <= i,
            n == count_kind(refs_model(order@), t, i as int),
        decreases order.len() - i,
    {
        assert(refs_model(order@)[i as int] == order@[i as int]@);
        if order[i].0.node_type == t {
            n = n + 1;
        }
        i = i + 1;
    }
    n
}

} // verus!
