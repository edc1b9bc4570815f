use crate::text::{decimal, decimal_string, str_eq};
use std::sync::Arc;
use vstd::prelude::*;
use vstd::string::StringExecFns;

verus! {

/// The closed set of node kinds.
#[derive(Debug, Clone, Copy, PartialEq, Eq, Hash, Structural)]
pub enum NodeType {
    Program,
    Module,
    FunctionDeclaration,
    VariableDeclaration,
    ClassDeclaration,
    ImportDeclaration,
    ExportDeclaration,
    BinaryExpression,
    UnaryExpression,
    CallExpression,
    MemberExpression,
    ArrowFunctionExpression,
    ObjectExpression,
    ArrayExpression,
    BlockStatement,
    IfStatement,
    ForStatement,
    WhileStatement,
    TryStatement,
    ReturnStatement,
    StringLiteral,
    NumericLiteral,
    BooleanLiteral,
    NullLiteral,
    RegExpLiteral,
    Identifier,
    JSXElement,
    JSXAttribute,
    TSType,
    TSInterface,
    TSEnum,
    Comment,
    Unknown,
}

/// A range of source text, by line and column of its two ends.
#[derive(Debug, Clone, Copy, PartialEq, Eq, Structural)]
pub struct SourceLocation {
    pub start_line: usize,
    pub start_column: usize,
    pub end_line: usize,
    pub end_column: usize,
}

/// A location as `line:column-line:column`.
pub open spec fn location_text(loc: SourceLocation) -> Seq<char> {
    decimal(loc.start_line as nat) + ":"@ + decimal(loc.start_column as nat) + "-"@ + decimal(
        loc.end_line as nat,
    ) + ":"@ + decimal(loc.end_column as nat)
}

impl SourceLocation {
    /// The location as text.
    pub fn to_text(&self) -> (text: String)
        ensures
            text@ == location_text(*self),
    {
        decimal_string(self.start_line).concat(":").concat(
            decimal_string(self.start_column).as_str(),
        ).concat("-").concat(decimal_string(self.end_line).as_str()).concat(":").concat(
            decimal_string(self.end_column).as_str(),
        )
    }

    pub fn new(start_line: usize, start_column: usize, end_line: usize, end_column: usize) -> (loc:
        Self)
        ensures
            loc == (SourceLocation { start_line, start_column, end_line, end_column }),
    {
        SourceLocation { start_line, start_column, end_line, end_column }
    }
}

/// A shared, immutable handle on a node. Holders of one handle see the node
/// as it was when they took it: a later change elsewhere makes a new node.
#[derive(Debug, Clone, PartialEq)]
pub struct NodeRef(pub Arc<Node>);

/// The value of one attribute of a node. A number is held as the bit
/// pattern of its binary64 encoding.
#[derive(Debug, Clone, PartialEq)]
pub enum NodeValue {
    String(String),
    Number(u64),
    Boolean(bool),
    Null,
    Array(Vec<NodeRef>),
    Object(Vec<(String, NodeRef)>),
}

/// One element of the syntax tree. `values` is a list of attributes in
/// which the last entry for a key is the one that counts.
#[derive(Debug, Clone, PartialEq)]
pub struct Node {
    pub id: usize,
    pub node_type: NodeType,
    pub values: Vec<(String, NodeValue)>,
    pub location: Option<SourceLocation>,
    pub children: Vec<NodeRef>,
    pub parent: Option<usize>,
}

/// The mathematical value of a node: its attributes as a map, its children
/// as a sequence of node values.
pub struct NodeModel {
    pub id: usize,
    pub node_type: NodeType,
    pub values: Map<Seq<char>, ValueModel>,
    pub location: Option<SourceLocation>,
    pub children: Seq<NodeModel>,
    pub parent: Option<usize>,
}

/// The mathematical value of an attribute.
pub enum ValueModel {
    Text(Seq<char>),
    Number(u64),
    Boolean(bool),
    Null,
    Array(Seq<NodeModel>),
    Object(Map<Seq<char>, NodeModel>),
}

pub open spec fn node_model(n: Node) -> NodeModel
    decreases n,
{
    NodeModel {
        id: n.id,
        node_type: n.node_type,
        values: values_model(n.values@),
        location: n.location,
        children: refs_model(n.children@),
        parent: n.parent,
    }
}

pub open spec fn refs_model(s: Seq<NodeRef>) -> Seq<NodeModel>
    decreases s,
{
    Seq::new(
        s.len(),
        |i: int|
            if 0 <= i < s.len() {
                node_model(*s[i].0)
            } else {
                arbitrary()
            },
    )
}

/// The attribute map that a list of entries stands for: later entries
/// override earlier ones.
pub open spec fn values_model(s: Seq<(String, NodeValue)>) -> Map<Seq<char>, ValueModel>
    decreases s,
{
    if s.len() == 0 {
        Map::empty()
    } else {
        values_model(s.drop_last()).insert(s.last().0@, value_model(s.last().1))
    }
}

pub open spec fn named_refs_model(s: Seq<(String, NodeRef)>) -> Map<Seq<char>, NodeModel>
    decreases s,
{
    if s.len() == 0 {
        Map::empty()
    } else {
        named_refs_model(s.drop_last()).insert(s.last().0@, node_model(*s.last().1.0))
    }
}

pub open spec fn value_model(v: NodeValue) -> ValueModel
    decreases v,
{
    match v {
        NodeValue::String(s) => ValueModel::Text(s@),
        NodeValue::Number(n) => ValueModel::Number(n),
        NodeValue::Boolean(b) => ValueModel::Boolean(b),
        NodeValue::Null => ValueModel::Null,
        NodeValue::Array(a) => ValueModel::Array(refs_model(a@)),
        NodeValue::Object(o) => ValueModel::Object(named_refs_model(o@)),
    }
}

impl View for Node {
    type V = NodeModel;

    open spec fn view(&self) -> NodeModel {
        node_model(*self)
    }
}

impl View for NodeRef {
    type V = NodeModel;

    open spec fn view(&self) -> NodeModel {
        node_model(*self.0)
    }
}

impl View for NodeValue {
    type V = ValueModel;

    open spec fn view(&self) -> ValueModel {
        value_model(*self)
    }
}

/// Whether no entry of `s` from `from` on has the key `key`.
pub open spec fn no_key_from(s: Seq<(String, NodeValue)>, key: Seq<char>, from: int) -> bool {
    forall|j: int| from <= j < s.len() ==> (#[trigger] s[j]).0@ != key
}

/// Looking a key up in the attribute map is finding its last entry.
pub proof fn lemma_values_model_lookup(s: Seq<(String, NodeValue)>, key: Seq<char>, i: int)
    requires
        -1 <= i < s.len(),
        i >= 0 ==> s[i].0@ == key,
        no_key_from(s, key, i + 1),
    ensures
        i >= 0 ==> values_model(s).contains_key(key) && values_model(s)[key] == value_model(s[i].1),
        i < 0 ==> !values_model(s).contains_key(key),
    decreases s.len(),
{
    if s.len() > 0 {
        if i == s.len() - 1 {
        } else {
            assert(s.last() == s[s.len() - 1]);
            assert forall|j: int| i + 1 <= j < s.drop_last().len() implies (
            #[trigger] s.drop_last()[j]).0@ != key by {
                assert(s.drop_last()[j] == s[j]);
            }
            if i >= 0 {
                assert(s.drop_last()[i] == s[i]);
            }
            lemma_values_model_lookup(s.drop_last(), key, i);
        }
    }
}

/// Replacing the last entry of a key sets that key in the attribute map.
pub proof fn lemma_values_model_replace(
    s: Seq<(String, NodeValue)>,
    i: int,
    entry: (String, NodeValue),
)
    requires
        0 <= i < s.len(),
        s[i].0@ == entry.0@,
        no_key_from(s, entry.0@, i + 1),
    ensures
        values_model(s.update(i, entry)) == values_model(s).insert(entry.0@, value_model(entry.1)),
    decreases s.len(),
{
    let t = s.update(i, entry);
    if i == s.len() - 1 {
        assert(t.drop_last() == s.drop_last());
        assert(values_model(t) =~= values_model(s).insert(entry.0@, value_model(entry.1)));
    } else {
        assert(s.last() == s[s.len() - 1]);
        assert(t.last() == s.last());
        assert(t.drop_last() == s.drop_last().update(i, entry));
        assert forall|j: int| i + 1 <= j < s.drop_last().len() implies (
        #[trigger] s.drop_last()[j]).0@ != entry.0@ by {
            assert(s.drop_last()[j] == s[j]);
        }
        lemma_values_model_replace(s.drop_last(), i, entry);
        assert(values_model(t) =~= values_model(s).insert(entry.0@, value_model(entry.1)));
    }
}

/// Entry lists that agree key by key and value by value stand for the same
/// attribute map.
pub proof fn lemma_values_model_pointwise(a: Seq<(String, NodeValue)>, b: Seq<(String, NodeValue)>)
    requires
        a.len() == b.len(),
        forall|i: int| 0 <= i < a.len() ==> a[i].0@ == b[i].0@ && a[i].1@ == b[i].1@,
    ensures
        values_model(a) == values_model(b),
    decreases a.len(),
{
    if a.len() > 0 {
        assert forall|i: int| 0 <= i < a.drop_last().len() implies a.drop_last()[i].0@
            == b.drop_last()[i].0@ && a.drop_last()[i].1@ == b.drop_last()[i].1@ by {
            assert(a.drop_last()[i] == a[i]);
            assert(b.drop_last()[i] == b[i]);
        }
        lemma_values_model_pointwise(a.drop_last(), b.drop_last());
    }
}

/// Lists of named handles that agree entry by entry stand for the same map.
pub proof fn lemma_named_refs_model_pointwise(a: Seq<(String, NodeRef)>, b: Seq<(String, NodeRef)>)
    requires
        a.len() == b.len(),
        forall|i: int| 0 <= i < a.len() ==> a[i].0@ == b[i].0@ && a[i].1@ == b[i].1@,
    ensures
        named_refs_model(a) == named_refs_model(b),
    decreases a.len(),
{
    if a.len() > 0 {
        assert forall|i: int| 0 <= i < a.drop_last().len() implies a.drop_last()[i].0@
            == b.drop_last()[i].0@ && a.drop_last()[i].1@ == b.drop_last()[i].1@ by {
            assert(a.drop_last()[i] == a[i]);
            assert(b.drop_last()[i] == b[i]);
        }
        lemma_named_refs_model_pointwise(a.drop_last(), b.drop_last());
    }
}

/// A list of second handles on the nodes of `refs`, in the same order.
pub fn share_all(refs: &Vec<NodeRef>) -> (r: Vec<NodeRef>)
    ensures
        r@ == refs@,
        refs_model(r@) == refs_model(refs@),
{
    let mut out: Vec<NodeRef> = Vec::new();
    let mut i: usize = 0;
    while i < refs.len()
        invariant
            i <= refs.len(),
            out@ == refs@.subrange(0, i as int),
        decreases refs.len() - i,
    {
        out.push(refs[i].share());
        assert(out@ =~= refs@.subrange(0, i + 1));
        i = i + 1;
    }
    assert(out@ =~= refs@);
    out
}

impl NodeRef {
    /// Wraps a node in a fresh shared handle.
    pub fn new(node: Node) -> (r: NodeRef)
        ensures
            *r.0 == node,
            r@ == node@,
    {
        NodeRef(Arc::new(node))
    }

    /// A second handle on the same node.
    pub fn share(&self) -> (r: NodeRef)
        ensures
            r == *self,
            r@ == self@,
    {
        NodeRef(share_node(&self.0))
    }
}

/// Makes a second handle on a shared node with `Arc::clone` of the standard
/// library. The contract claims that the new handle points to the same
/// node, so both compare equal.
#[verifier::external_body]
pub(crate) fn share_node(node: &Arc<Node>) -> (r: Arc<Node>)
    ensures
        r == *node,
{
    Arc::clone(node)
}

impl Node {
    /// A node with no attribute, no location, no child and no parent.
    pub fn new(id: usize, node_type: NodeType) -> (n: Node)
        ensures
            n@ == (NodeModel {
                id,
                node_type,
                values: Map::empty(),
                location: None,
                children: Seq::empty(),
                parent: None,
            }),
    {
        let n = Node {
            id,
            node_type,
            values: Vec::new(),
            location: None,
            children: Vec::new(),
            parent: None,
        };
        assert(n@.children =~= Seq::empty());
        n
    }

    pub fn with_location(self, location: SourceLocation) -> (n: Node)
        ensures
            n@ == (NodeModel { location: Some(location), ..self@ }),
    {
        let mut n = self;
        n.location = Some(location);
        n
    }

    pub fn with_parent(self, parent_id: usize) -> (n: Node)
        ensures
            n@ == (NodeModel { parent: Some(parent_id), ..self@ }),
    {
        let mut n = self;
        n.parent = Some(parent_id);
        n
    }

    /// Appends a child after the children already there.
    pub fn add_child(&mut self, child: Arc<Node>)
        ensures
            final(self)@ == (NodeModel {
                children: old(self)@.children.push(node_model(*child)),
                ..old(self)@
            }),
    {
        self.children.push(NodeRef(child));
        assert(self@.children =~= old(self)@.children.push(node_model(*child)));
    }

    /// Sets one attribute and leaves every other key as it was.
    pub fn set_value(&mut self, key: &str, value: NodeValue)
        ensures
            final(self)@ == (NodeModel {
                values: old(self)@.values.insert(key@, value@),
                ..old(self)@
            }),
    {
        let mut i: usize = self.values.len();
        while i > 0
            invariant
                i <= self.values.len(),
                *self == *old(self),
                no_key_from(self.values@, key@, i as int),
            decreases i,
        {
            i = i - 1;
            if str_eq(self.values[i].0.as_str(), key) {
                let ghost before = self.values@;
                let entry = (key.to_owned(), value);
                proof {
                    lemma_values_model_replace(before, i as int, entry);
                }
                self.values.set(i, entry);
                return ;
            }
        }
        self.values.push((key.to_owned(), value));
        assert(self.values@.drop_last() == old(self).values@);
    }

    /// The attribute stored under `key`, if there is one.
    pub fn get_value(&self, key: &str) -> (found: Option<&NodeValue>)
        ensures
            match found {
                Some(v) => self@.values.contains_key(key@) && v@ == self@.values[key@],
                None => !self@.values.contains_key(key@),
            },
    {
        let mut i: usize = self.values.len();
        while i > 0
            invariant
                i <= self.values.len(),
                no_key_from(self.values@, key@, i as int),
            decreases i,
        {
            i = i - 1;
            if str_eq(self.values[i].0.as_str(), key) {
                proof {
                    lemma_values_model_lookup(self.values@, key@, i as int);
                }
                return Some(&self.values[i].1);
            }
        }
        proof {
            lemma_values_model_lookup(self.values@, key@, -1);
        }
        None
    }

    /// The attribute under `key` where it is a string.
    pub fn get_string_value(&self, key: &str) -> (found: Option<&str>)
        ensures
            match found {
                Some(s) => self@.values.contains_key(key@) && self@.values[key@] == ValueModel::Text(
                    s@,
                ),
                None => !(self@.values.contains_key(key@) && self@.values[key@] is Text),
            },
    {
        match self.get_value(key) {
            Some(NodeValue::String(s)) => Some(s.as_str()),
            _ => None,
        }
    }

    /// The attribute under `key` where it is a number, as its bit pattern.
    pub fn get_number_value(&self, key: &str) -> (found: Option<u64>)
        ensures
            match found {
                Some(n) => self@.values.contains_key(key@) && self@.values[key@]
                    == ValueModel::Number(n),
                None => !(self@.values.contains_key(key@) && self@.values[key@] is Number),
            },
    {
        match self.get_value(key) {
            Some(NodeValue::Number(n)) => Some(*n),
            _ => None,
        }
    }

    /// The attribute under `key` where it is a boolean.
    pub fn get_boolean_value(&self, key: &str) -> (found: Option<bool>)
        ensures
            match found {
                Some(b) => self@.values.contains_key(key@) && self@.values[key@]
                    == ValueModel::Boolean(b),
                None => !(self@.values.contains_key(key@) && self@.values[key@] is Boolean),
            },
    {
        match self.get_value(key) {
            Some(NodeValue::Boolean(b)) => Some(*b),
            _ => None,
        }
    }

    /// A node of its own with the same content; the children are shared.
    pub fn duplicate(&self) -> (n: Node)
        ensures
            n@ == self@,
    {
        let mut values: Vec<(String, NodeValue)> = Vec::new();
        let mut i: usize = 0;
        while i < self.values.len()
            invariant
                i <= self.values.len(),
                values.len() == i,
                forall|j: int|
                    0 <= j < i ==> values@[j].0@ == self.values@[j].0@ && values@[j].1@
                        == self.values@[j].1@,
            decreases self.values.len() - i,
        {
            let key = self.values[i].0.clone();
            let value = self.values[i].1.duplicate();
            values.push((key, value));
            i = i + 1;
        }
        proof {
            lemma_values_model_pointwise(values@, self.values@);
        }
        Node {
            id: self.id,
            node_type: self.node_type,
            values,
            location: self.location,
            children: share_all(&self.children),
            parent: self.parent,
        }
    }
}

impl NodeValue {
    /// A value of its own with the same content; nodes it refers to are shared.
    pub fn duplicate(&self) -> (v: NodeValue)
        ensures
            v@ == self@,
    {
        match self {
            NodeValue::String(s) => NodeValue::String(s.clone()),
            NodeValue::Number(n) => NodeValue::Number(*n),
            NodeValue::Boolean(b) => NodeValue::Boolean(*b),
            NodeValue::Null => NodeValue::Null,
            NodeValue::Array(a) => NodeValue::Array(share_all(a)),
            NodeValue::Object(o) => {
                let mut out: Vec<(String, NodeRef)> = Vec::new();
                let mut i: usize = 0;
                while i < o.len()
                    invariant
                        i <= o.len(),
                        out.len() == i,
                        forall|j: int|
                            0 <= j < i ==> out@[j].0@ == o@[j].0@ && out@[j].1@ == o@[j].1@,
                    decreases o.len() - i,
                {
                    out.push((o[i].0.clone(), o[i].1.share()));
                    i = i + 1;
                }
                proof {
                    lemma_named_refs_model_pointwise(out@, o@);
                }
                NodeValue::Object(out)
            },
        }
    }
}

} // verus!
