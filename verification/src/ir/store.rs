use crate::ir::error::CoreError;
use crate::ir::node::{node_model, refs_model, share_node, Node, NodeModel, NodeRef, NodeType};
use crate::ir::traverse::{preorder, tree_size, walk};
use crate::text::opt_text;
use std::collections::HashMap;
use std::sync::Arc;
use vstd::prelude::*;

verus! {

broadcast use vstd::std_specs::hash::group_hash_axioms;

/// One compilation unit: the nodes by id, the id of the root, and the id
/// that the next new node gets.
pub struct IR {
    pub(crate) nodes: HashMap<usize, NodeRef>,
    pub(crate) root_id: usize,
    pub(crate) next_id: usize,
    pub(crate) source_path: Option<String>,
}

/// The mathematical value of a compilation unit.
pub struct IRModel {
    pub nodes: Map<usize, NodeModel>,
    pub root_id: usize,
    pub next_id: usize,
    pub source_path: Option<Seq<char>>,
}

pub open spec fn nodes_model(m: Map<usize, NodeRef>) -> Map<usize, NodeModel> {
    Map::new(|k: usize| m.contains_key(k), |k: usize| m[k]@)
}

impl IRModel {
    /// The root resolves and is a program; every node is filed under its
    /// own id; the counter is above every id in use.
    pub open spec fn wf(self) -> bool {
        &&& self.nodes.contains_key(self.root_id)
        &&& self.nodes[self.root_id].node_type == NodeType::Program
        &&& forall|k: usize| #[trigger]
            self.nodes.contains_key(k) ==> k < self.next_id && self.nodes[k].id == k
    }

    pub open spec fn root(self) -> NodeModel {
        self.nodes[self.root_id]
    }
}

/// A fresh node as `create_node` files it.
pub open spec fn fresh_node(id: usize, node_type: NodeType) -> NodeModel {
    NodeModel {
        id,
        node_type,
        values: Map::empty(),
        location: None,
        children: Seq::empty(),
        parent: None,
    }
}

/// The unit after `create_node`.
pub open spec fn created(ir: IRModel, node_type: NodeType) -> IRModel {
    IRModel {
        nodes: ir.nodes.insert(ir.next_id, fresh_node(ir.next_id, node_type)),
        next_id: (ir.next_id + 1) as usize,
        ..ir
    }
}

/// The unit after `add_child`: where both ids resolve, the parent's entry
/// gets the child's present value as its last child; no other entry changes.
pub open spec fn child_added(ir: IRModel, parent_id: usize, child_id: usize) -> IRModel {
    if ir.nodes.contains_key(parent_id) && ir.nodes.contains_key(child_id) {
        IRModel {
            nodes: ir.nodes.insert(
                parent_id,
                NodeModel {
                    children: ir.nodes[parent_id].children.push(ir.nodes[child_id]),
                    ..ir.nodes[parent_id]
                },
            ),
            ..ir
        }
    } else {
        ir
    }
}

/// The unit after `replace_root`.
pub open spec fn root_replaced(ir: IRModel, root: NodeModel) -> IRModel {
    IRModel { nodes: ir.nodes.insert(ir.root_id, root), ..ir }
}

/// The file that a list of nodes makes: each node under its id, a later
/// node in the place of an earlier one with the same id.
pub open spec fn filed(nodes: Seq<NodeModel>, upto: int) -> Map<usize, NodeModel>
    decreases upto,
{
    if upto <= 0 {
        Map::empty()
    } else {
        filed(nodes, upto - 1).insert(nodes[upto - 1].id, nodes[upto - 1])
    }
}

pub open spec fn nodes_of(s: Seq<Node>) -> Seq<NodeModel> {
    Seq::new(s.len(), |i: int| s[i]@)
}

/// Whether every node in the trees of the first `upto` nodes has its id
/// on file.
pub open spec fn is_closed(nodes: Seq<NodeModel>, file: Map<usize, NodeModel>, upto: int) -> bool {
    forall|i: int, j: int|
        0 <= i < upto && 0 <= j < preorder(nodes[i]).len() ==> file.contains_key(
            (#[trigger] preorder(nodes[i])[j]).id,
        )
}

/// What is wrong with the parts that a unit is to be made of, if
/// anything is: a node whose id the counter does not exceed, a node
/// somewhere in a tree whose id is not on file, a root that is not on
/// file, or a root that is no program.
pub open spec fn defect(nodes: Seq<NodeModel>, root_id: usize, next_id: usize) -> Option<Seq<char>> {
    if exists|i: int| 0 <= i < nodes.len() && (#[trigger] nodes[i]).id >= next_id {
        Some("节点ID超出范围"@)
    } else if !is_closed(nodes, filed(nodes, nodes.len() as int), nodes.len() as int) {
        Some("存在悬空的子节点引用"@)
    } else if !filed(nodes, nodes.len() as int).contains_key(root_id) {
        Some("根节点不存在"@)
    } else if filed(nodes, nodes.len() as int)[root_id].node_type != NodeType::Program {
        Some("根节点不是程序节点"@)
    } else {
        None
    }
}

/// Whether `update_node` files the node.
pub open spec fn can_update(ir: IRModel, node: NodeModel) -> bool {
    ir.nodes.contains_key(node.id) && (node.id == ir.root_id ==> node.node_type
        == NodeType::Program)
}

/// The unit after `update_node`.
pub open spec fn updated(ir: IRModel, node: NodeModel) -> IRModel {
    if can_update(ir, node) {
        IRModel { nodes: ir.nodes.insert(node.id, node), ..ir }
    } else {
        ir
    }
}

/// The unit after `remove_node`: the entry is gone unless it is the root's.
pub open spec fn removed(ir: IRModel, id: usize) -> IRModel {
    if id == ir.root_id {
        ir
    } else {
        IRModel { nodes: ir.nodes.remove(id), ..ir }
    }
}

impl View for IR {
    type V = IRModel;

    closed spec fn view(&self) -> IRModel {
        IRModel {
            nodes: nodes_model(self.nodes@),
            root_id: self.root_id,
            next_id: self.next_id,
            source_path: opt_text(self.source_path),
        }
    }
}

impl IR {
    pub open spec fn wf(&self) -> bool {
        self@.wf()
    }

    /// A unit that holds its root, an empty program with id 0, and nothing else.
    pub fn new() -> (ir: IR)
        ensures
            ir.wf(),
            ir@ == (IRModel {
                nodes: Map::<usize, NodeModel>::empty().insert(0, fresh_node(0, NodeType::Program)),
                root_id: 0,
                next_id: 1,
                source_path: None,
            }),
    {
        let mut nodes: HashMap<usize, NodeRef> = HashMap::new();
        nodes.insert(0, NodeRef::new(Node::new(0, NodeType::Program)));
        let ir = IR { nodes, root_id: 0, next_id: 1, source_path: None };
        assert(ir@.nodes =~= Map::<usize, NodeModel>::empty().insert(
            0,
            fresh_node(0, NodeType::Program),
        ));
        ir
    }

    /// Makes a unit of its parts: the nodes to file, the id of the root,
    /// the id that the next new node gets, and the path of the source.
    /// Parts that make no well-formed unit are refused.
    pub fn from_nodes(
        nodes: Vec<Node>,
        root_id: usize,
        next_id: usize,
        source_path: Option<String>,
    ) -> (r: Result<IR, CoreError>)
        ensures
            match r {
                Ok(ir) => defect(nodes_of(nodes@), root_id, next_id) is None && ir.wf() && ir@
                    == (IRModel {
                    nodes: filed(nodes_of(nodes@), nodes.len() as int),
                    root_id,
                    next_id,
                    source_path: opt_text(source_path),
                }),
                Err(e) => e matches CoreError::General(m) && defect(
                    nodes_of(nodes@),
                    root_id,
                    next_id,
                ) == Some(m@),
            },
    {
        let ghost models = nodes_of(nodes@);
        let mut map: HashMap<usize, NodeRef> = HashMap::new();
        let mut i: usize = 0;
        assert(nodes_model(map@) =~= filed(models, 0));
        while i < nodes.len()
            invariant
                i <= nodes.len(),
                models == nodes_of(nodes@),
                nodes_model(map@) == filed(models, i as int),
                forall|j: int| 0 <= j < i ==> (#[trigger] models[j]).id < next_id,
                forall|k: usize| #[trigger]
                    nodes_model(map@).contains_key(k) ==> k < next_id && nodes_model(map@)[k].id
                        == k,
            decreases nodes.len() - i,
        {
            assert(models[i as int] == nodes@[i as int]@);
            if nodes[i].id >= next_id {
                return Err(CoreError::General("节点ID超出范围".to_owned()));
            }
            let ghost before = nodes_model(map@);
            map.insert(nodes[i].id, NodeRef::new(nodes[i].duplicate()));
            assert(nodes_model(map@) =~= before.insert(models[i as int].id, models[i as int]));
            i = i + 1;
        }
        let mut k: usize = 0;
        while k < nodes.len()
            invariant
                k <= nodes.len(),
                models == nodes_of(nodes@),
                nodes_model(map@) == filed(models, nodes.len() as int),
                is_closed(models, nodes_model(map@), k as int),
                forall|x: int| 0 <= x < nodes.len() ==> (#[trigger] models[x]).id < next_id,
            decreases nodes.len() - k,
        {
            assert(models[k as int] == nodes@[k as int]@);
            let tree = NodeRef::new(nodes[k].duplicate());
            let order = walk(&tree);
            let mut j: usize = 0;
            while j < order.len()
                invariant
                    j <= order.len(),
                    k < nodes.len(),
                    models == nodes_of(nodes@),
                    nodes_model(map@) == filed(models, nodes.len() as int),
                    forall|x: int| 0 <= x < nodes.len() ==> (#[trigger] models[x]).id < next_id,
                    refs_model(order@) == preorder(models[k as int]),
                    forall|x: int|
                        0 <= x < j ==> nodes_model(map@).contains_key(
                            (#[trigger] preorder(models[k as int])[x]).id,
                        ),
                decreases order.len() - j,
            {
                assert(refs_model(order@)[j as int] == order@[j as int]@);
                if !map.contains_key(&order[j].0.id) {
                    assert(!nodes_model(map@).contains_key(
                        preorder(models[k as int])[j as int].id,
                    ));
                    assert(!is_closed(models, nodes_model(map@), nodes.len() as int));
                    return Err(CoreError::General("存在悬空的子节点引用".to_owned()));
                }
                j = j + 1;
            }
            assert(refs_model(order@).len() == order.len());
            k = k + 1;
        }
        let root_is_program = match map.get(&root_id) {
            Some(root) => root.0.node_type == NodeType::Program,
            None => {
                return Err(CoreError::General("根节点不存在".to_owned()));
            },
        };
        if !root_is_program {
            return Err(CoreError::General("根节点不是程序节点".to_owned()));
        }
        Ok(IR { nodes: map, root_id, next_id, source_path })
    }

    pub fn with_source_path(self, path: &str) -> (ir: IR)
        ensures
            ir@ == (IRModel { source_path: Some(path@), ..self@ }),
    {
        let mut ir = self;
        ir.source_path = Some(path.to_owned());
        ir
    }

    pub fn root_id(&self) -> (id: usize)
        ensures
            id == self@.root_id,
    {
        self.root_id
    }

    pub fn next_id(&self) -> (id: usize)
        ensures
            id == self@.next_id,
    {
        self.next_id
    }

    pub fn source_path(&self) -> (path: Option<&str>)
        ensures
            match path {
                Some(p) => self@.source_path == Some(p@),
                None => self@.source_path is None,
            },
    {
        match &self.source_path {
            Some(p) => Some(p.as_str()),
            None => None,
        }
    }

    /// The number of nodes on file, reachable from the root or not.
    pub fn node_count(&self) -> (n: usize)
        ensures
            n == self@.nodes.len(),
    {
        assert(self@.nodes.dom() =~= self.nodes@.dom());
        self.nodes.len()
    }

    /// The root, which a well-formed unit always has.
    pub fn get_root(&self) -> (root: Arc<Node>)
        requires
            self.wf(),
        ensures
            node_model(*root) == self@.root(),
    {
        let found = self.nodes.get(&self.root_id);
        assert(self@.nodes.contains_key(self.root_id));
        match found {
            Some(r) => share_node(&r.0),
            None => {
                assert(false);
                Arc::new(Node::new(self.root_id, NodeType::Program))
            },
        }
    }

    /// The node on file under `id`, if there is one.
    pub fn get_node(&self, id: usize) -> (found: Option<Arc<Node>>)
        ensures
            match found {
                Some(n) => self@.nodes.contains_key(id) && node_model(*n) == self@.nodes[id],
                None => !self@.nodes.contains_key(id),
            },
    {
        match self.nodes.get(&id) {
            Some(r) => Some(share_node(&r.0)),
            None => None,
        }
    }

    /// Files a new node with no content under the next id and returns that id.
    pub fn create_node(&mut self, node_type: NodeType) -> (id: usize)
        requires
            old(self).wf(),
            old(self)@.next_id < usize::MAX,
        ensures
            id == old(self)@.next_id,
            !old(self)@.nodes.contains_key(id),
            final(self)@ == created(old(self)@, node_type),
            final(self).wf(),
    {
        let id = self.next_id;
        self.next_id = self.next_id + 1;
        self.nodes.insert(id, NodeRef::new(Node::new(id, node_type)));
        assert(self@.nodes =~= created(old(self)@, node_type).nodes);
        id
    }

    /// Appends the node filed under `child_id`, as it is now, to the
    /// children of the node filed under `parent_id`. Where either id does
    /// not resolve nothing changes.
    pub fn add_child(&mut self, parent_id: usize, child_id: usize)
        requires
            old(self).wf(),
        ensures
            final(self)@ == child_added(old(self)@, parent_id, child_id),
            final(self).wf(),
    {
        let child = match self.nodes.get(&child_id) {
            Some(c) => share_node(&c.0),
            None => {
                return ;
            },
        };
        let mut parent = match self.nodes.get(&parent_id) {
            Some(p) => p.0.duplicate(),
            None => {
                return ;
            },
        };
        parent.add_child(child);
        self.nodes.insert(parent_id, NodeRef::new(parent));
        assert(self@.nodes =~= child_added(old(self)@, parent_id, child_id).nodes);
    }

    /// Files `node` in the place of the node that is on file under its
    /// id. Nothing changes where no node is on file under that id, or
    /// where the id is the root's and `node` is no program.
    pub fn update_node(&mut self, node: Node) -> (filed: bool)
        requires
            old(self).wf(),
        ensures
            filed == can_update(old(self)@, node@),
            final(self)@ == updated(old(self)@, node@),
            final(self).wf(),
    {
        if !self.nodes.contains_key(&node.id) {
            return false;
        }
        if node.id == self.root_id && node.node_type != NodeType::Program {
            return false;
        }
        let ghost model = node@;
        self.nodes.insert(node.id, NodeRef::new(node));
        assert(self@.nodes =~= updated(old(self)@, model).nodes);
        true
    }

    /// Takes the node filed under `id` off the file. The root stays.
    /// The counter for new ids is left as it was.
    pub fn remove_node(&mut self, id: usize) -> (gone: bool)
        requires
            old(self).wf(),
        ensures
            final(self)@ == removed(old(self)@, id),
            gone == (id != old(self)@.root_id && old(self)@.nodes.contains_key(id)),
            final(self).wf(),
    {
        if id == self.root_id {
            return false;
        }
        let present = self.nodes.contains_key(&id);
        self.nodes.remove(&id);
        assert(self@.nodes =~= removed(old(self)@, id).nodes);
        present
    }

    /// Walks the tree under the root depth first, a node before its
    /// children, the children from left to right, and returns the nodes in
    /// the order in which they were met. The unit is only read.
    pub fn visit(&self) -> (order: Vec<NodeRef>)
        requires
            self.wf(),
        ensures
            refs_model(order@) == preorder(self@.root()),
            order.len() == tree_size(self@.root()),
    {
        let root = NodeRef(self.get_root());
        walk(&root)
    }

    /// Puts `root` in the place of the root. No other entry changes.
    pub fn replace_root(&mut self, root: NodeRef)
        requires
            old(self).wf(),
            root@.id == old(self)@.root_id,
            root@.node_type == NodeType::Program,
        ensures
            final(self)@ == root_replaced(old(self)@, root@),
            final(self).wf(),
    {
        self.nodes.insert(self.root_id, root);
        assert(self@.nodes =~= root_replaced(old(self)@, root@).nodes);
    }

    /// The text form of a unit: a program with an empty body.
    pub fn to_json(&self) -> (json: String)
        ensures
            json@ == "{\n  \"type\": \"Program\",\n  \"body\": []\n}\n"@,
    {
        "{\n  \"type\": \"Program\",\n  \"body\": []\n}\n".to_owned()
    }
}

} // verus!
