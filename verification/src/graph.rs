//! The node graph of one trace: an append-only arena of nodes, owned by the
//! trace and passed by reference to whatever emits nodes into it.
use vstd::prelude::*;

verus! {

/// A non-owning handle to a node of a [`Graph`]: the node's position in it.
/// It means something only together with the graph that handed it out.
#[derive(Clone, Copy, Debug, PartialEq, Eq, Structural)]
pub struct NodeRef {
    pub index: usize,
}

/// What a node computes from its operands.
#[derive(Clone, Copy, Debug, PartialEq, Eq, Structural)]
pub enum NodeKind {
    /// A terminal value, given by its bit pattern. No operands.
    Constant { bits: u64 },
    /// A synthetic node that carries a small payload, such as a variant tag. No operands.
    UserData { payload: usize },
    /// An assignable storage location. No operands.
    Local,
    /// A composite built from its operands, one per field in declared order.
    Compose,
    /// Field `index` of the composite value that is the single operand.
    Extract { index: usize },
    /// A copy of the first operand with field `index` replaced by the second.
    Insert { index: usize },
    /// The location of field `index` inside the location that is the single operand.
    FieldAddress { index: usize },
    /// The contents of the location that is the single operand, read at this point.
    Load,
    /// Records the second operand as the new contents of the location that is the first.
    Store,
}

/// A node of the graph.
#[derive(Debug, PartialEq, Eq)]
pub struct Node {
    pub kind: NodeKind,
    pub operands: Vec<NodeRef>,
}

/// The mathematical form of a [`Node`].
pub struct NodeView {
    pub kind: NodeKind,
    pub operands: Seq<NodeRef>,
}

impl View for Node {
    type V = NodeView;

    open spec fn view(&self) -> NodeView {
        NodeView { kind: self.kind, operands: self.operands@ }
    }
}

/// The live trace: every node emitted so far, in emission order.
pub struct Graph {
    nodes: Vec<Node>,
}

impl View for Graph {
    type V = Seq<NodeView>;

    closed spec fn view(&self) -> Seq<NodeView> {
        self.nodes@.map_values(|n: Node| n@)
    }
}

/// The payload of the node that `node` refers to, if that node carries one.
pub open spec fn payload_of(nodes: Seq<NodeView>, node: NodeRef) -> Option<usize> {
    if node.index < nodes.len() {
        match nodes[node.index as int].kind {
            NodeKind::UserData { payload } => Some(payload),
            _ => None,
        }
    } else {
        None
    }
}

impl Graph {
    /// An empty graph.
    pub fn new() -> (graph: Graph)
        ensures
            graph@ == Seq::<NodeView>::empty(),
    {
        let graph = Graph { nodes: Vec::new() };
        assert(graph@ =~= Seq::<NodeView>::empty());
        graph
    }

    /// The number of nodes emitted so far.
    pub fn len(&self) -> (n: usize)
        ensures
            n == self@.len(),
    {
        self.nodes.len()
    }

    /// Appends a node and returns the reference to it. Nothing already in the
    /// graph changes.
    pub fn allocate_node(&mut self, kind: NodeKind, operands: Vec<NodeRef>) -> (node: NodeRef)
        ensures
            final(self)@ == old(self)@.push(NodeView { kind, operands: operands@ }),
            node.index == old(self)@.len(),
    {
        let index = self.nodes.len();
        self.nodes.push(Node { kind, operands });
        assert(self@ =~= old(self)@.push(NodeView { kind, operands: operands@ }));
        NodeRef { index }
    }

    /// Appends a synthetic node that carries `payload`.
    pub fn new_user_node(&mut self, payload: usize) -> (node: NodeRef)
        ensures
            final(self)@ == old(self)@.push(
                NodeView { kind: NodeKind::UserData { payload }, operands: Seq::empty() },
            ),
            node.index == old(self)@.len(),
            payload_of(final(self)@, node) == Some(payload),
    {
        self.allocate_node(NodeKind::UserData { payload }, Vec::new())
    }

    /// The payload that `node` carries: `None` when `node` is not a node of
    /// this graph or is not a synthetic payload node.
    pub fn user_data(&self, node: NodeRef) -> (payload: Option<usize>)
        ensures
            payload == payload_of(self@, node),
    {
        if node.index < self.nodes.len() {
            match self.nodes[node.index].kind {
                NodeKind::UserData { payload } => Some(payload),
                _ => None,
            }
        } else {
            None
        }
    }

    /// The kind of the node that `node` refers to, if it is a node of this graph.
    pub fn kind(&self, node: NodeRef) -> (kind: Option<NodeKind>)
        ensures
            kind == (if node.index < self@.len() {
                Some(self@[node.index as int].kind)
            } else {
                None
            }),
    {
        if node.index < self.nodes.len() {
            Some(self.nodes[node.index].kind)
        } else {
            None
        }
    }

    /// Operand `position` of the node that `node` refers to, if there is one.
    pub fn operand(&self, node: NodeRef, position: usize) -> (operand: Option<NodeRef>)
        ensures
            operand == (if node.index < self@.len() && position < self@[node.index as int].operands.len() {
                Some(self@[node.index as int].operands[position as int])
            } else {
                None
            }),
    {
        if node.index < self.nodes.len() {
            let node = &self.nodes[node.index];
            if position < node.operands.len() {
                Some(node.operands[position])
            } else {
                None
            }
        } else {
            None
        }
    }
}

} // verus!
