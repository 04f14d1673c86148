//! What the nodes of a graph stand for: a term for each value node, and the
//! contents of each storage location at each point of the trace. Two nodes
//! are equivalent in a graph when they stand for the same term.
use vstd::prelude::*;
use crate::graph::{NodeKind, NodeRef, NodeView};

verus! {

/// The value that a node stands for.
pub enum Term {
    /// A terminal value, by its bit pattern.
    Constant(u64),
    /// The payload of a synthetic node.
    Data(usize),
    /// The value of the node at this position, of which nothing more is known.
    Unknown(nat),
    /// What the location at this position held before anything was stored into it.
    Initial(nat),
    /// A field that the composite it is taken from does not have.
    Absent,
    /// A composite, by the values of its fields.
    Tuple(Seq<Term>),
    /// Field `1` of the value `0`, where `0` is not known to be built from fields.
    Field(Box<Term>, nat),
    /// The value `0` with field `1` replaced by `2`, where `0` is not known to be built from fields.
    With(Box<Term>, nat, Box<Term>),
}

/// Field `index` of `term`.
pub open spec fn project(term: Term, index: nat) -> Term
    decreases term,
{
    match term {
        Term::Tuple(fields) => if index < fields.len() {
            fields[index as int]
        } else {
            Term::Absent
        },
        Term::With(base, replaced, value) => if index == replaced {
            *value
        } else {
            project(*base, index)
        },
        _ => Term::Field(Box::new(term), index),
    }
}

/// `term` with field `index` replaced by `value`.
pub open spec fn replace(term: Term, index: nat, value: Term) -> Term {
    match term {
        Term::Tuple(fields) => if index < fields.len() {
            Term::Tuple(fields.update(index as int, value))
        } else {
            Term::With(Box::new(term), index, Box::new(value))
        },
        _ => Term::With(Box::new(term), index, Box::new(value)),
    }
}

/// What stands in `term` at the end of `path`, a list of field indices from the outside in.
pub open spec fn read_at(term: Term, path: Seq<nat>) -> Term
    decreases path.len(),
{
    if path.len() == 0 {
        term
    } else {
        project(read_at(term, path.drop_last()), path.last())
    }
}

/// `term` with what stands at the end of `path` replaced by `value`.
pub open spec fn write_at(term: Term, path: Seq<nat>, value: Term) -> Term
    decreases path.len(),
{
    if path.len() == 0 {
        value
    } else {
        write_at(
            term,
            path.drop_last(),
            replace(read_at(term, path.drop_last()), path.last(), value),
        )
    }
}

/// The storage location that the node at position `node` denotes: the
/// position of the `Local` node it lies in, and the path of field indices
/// from there. `None` when the node is no location.
pub open spec fn place_of(graph: Seq<NodeView>, node: nat) -> Option<(nat, Seq<nat>)>
    decreases node,
{
    if node >= graph.len() {
        None
    } else {
        let operands = graph[node as int].operands;
        match graph[node as int].kind {
            NodeKind::Local => Some((node, Seq::empty())),
            NodeKind::FieldAddress { index } => if operands.len() == 1 && operands[0].index < node {
                match place_of(graph, operands[0].index as nat) {
                    Some((root, path)) => Some((root, path.push(index as nat))),
                    None => None,
                }
            } else {
                None
            },
            _ => None,
        }
    }
}

/// What the location rooted at position `root` holds after the first `upto`
/// nodes of the graph: each `Store` into the location, or into a field of it,
/// replaces what stands there.
pub open spec fn content(graph: Seq<NodeView>, upto: nat, root: nat) -> Term
    decreases upto, 0nat,
{
    if upto == 0 || upto > graph.len() {
        Term::Initial(root)
    } else {
        let before = content(graph, (upto - 1) as nat, root);
        let node = graph[upto - 1];
        let operands = node.operands;
        if node.kind == NodeKind::Store && operands.len() == 2 && operands[0].index < upto - 1
            && operands[1].index < upto - 1 {
            match place_of(graph, operands[0].index as nat) {
                Some((target, path)) => if target == root {
                    write_at(before, path, denote(graph, operands[1].index as nat))
                } else {
                    before
                },
                None => before,
            }
        } else {
            before
        }
    }
}

/// The term that the node at position `node` stands for.
pub open spec fn denote(graph: Seq<NodeView>, node: nat) -> Term
    decreases node, 1nat,
{
    if node >= graph.len() {
        Term::Unknown(node)
    } else {
        let operands = graph[node as int].operands;
        match graph[node as int].kind {
            NodeKind::Constant { bits } => Term::Constant(bits),
            NodeKind::UserData { payload } => Term::Data(payload),
            NodeKind::Compose => Term::Tuple(
                Seq::new(
                    operands.len(),
                    |k: int|
                        if 0 <= k < operands.len() && operands[k].index < node {
                            denote(graph, operands[k].index as nat)
                        } else {
                            Term::Absent
                        },
                ),
            ),
            NodeKind::Extract { index } => if operands.len() == 1 && operands[0].index < node {
                project(denote(graph, operands[0].index as nat), index as nat)
            } else {
                Term::Unknown(node)
            },
            NodeKind::Insert { index } => if operands.len() == 2 && operands[0].index < node
                && operands[1].index < node {
                replace(
                    denote(graph, operands[0].index as nat),
                    index as nat,
                    denote(graph, operands[1].index as nat),
                )
            } else {
                Term::Unknown(node)
            },
            NodeKind::Load => if operands.len() == 1 && operands[0].index < node {
                match place_of(graph, operands[0].index as nat) {
                    Some((root, path)) => read_at(content(graph, node, root), path),
                    None => Term::Unknown(node),
                }
            } else {
                Term::Unknown(node)
            },
            _ => Term::Unknown(node),
        }
    }
}

/// Whether two nodes of a graph stand for the same value.
pub open spec fn equivalent(graph: Seq<NodeView>, left: NodeRef, right: NodeRef) -> bool {
    denote(graph, left.index as nat) == denote(graph, right.index as nat)
}

/// Whether `longer` is `shorter` with nodes appended.
pub open spec fn extends(longer: Seq<NodeView>, shorter: Seq<NodeView>) -> bool {
    shorter.len() <= longer.len() && forall|k: int|
        0 <= k < shorter.len() ==> longer[k] == #[trigger] shorter[k]
}

/// A replaced field reads back as what replaced it.
pub proof fn lemma_project_replaced(term: Term, index: nat, value: Term)
    ensures
        project(replace(term, index, value), index) == value,
{
}

/// Replacing one field leaves every other field as it was.
pub proof fn lemma_project_other(term: Term, index: nat, value: Term, other: nat)
    requires
        other != index,
    ensures
        project(replace(term, index, value), other) == project(term, other),
{
}

/// What was written at a path reads back from that path.
pub proof fn lemma_read_written(term: Term, path: Seq<nat>, value: Term)
    ensures
        read_at(write_at(term, path, value), path) == value,
    decreases path.len(),
{
    if path.len() > 0 {
        let outer = path.drop_last();
        let inner = replace(read_at(term, outer), path.last(), value);
        lemma_read_written(term, outer, inner);
        lemma_project_replaced(read_at(term, outer), path.last(), value);
    }
}

/// Appending nodes does not change which location an earlier node denotes.
pub proof fn lemma_place_kept(longer: Seq<NodeView>, shorter: Seq<NodeView>, node: nat)
    requires
        extends(longer, shorter),
        node < shorter.len(),
    ensures
        place_of(longer, node) == place_of(shorter, node),
    decreases node,
{
    assert(longer[node as int] == shorter[node as int]);
    let operands = shorter[node as int].operands;
    match shorter[node as int].kind {
        NodeKind::FieldAddress { index } => {
            if operands.len() == 1 && operands[0].index < node {
                lemma_place_kept(longer, shorter, operands[0].index as nat);
            }
        },
        _ => {},
    }
}

/// Appending nodes does not change what an earlier node stands for.
pub proof fn lemma_denote_kept(longer: Seq<NodeView>, shorter: Seq<NodeView>, node: nat)
    requires
        extends(longer, shorter),
        node < shorter.len(),
    ensures
        denote(longer, node) == denote(shorter, node),
    decreases node, 1nat,
{
    assert(longer[node as int] == shorter[node as int]);
    let operands = shorter[node as int].operands;
    match shorter[node as int].kind {
        NodeKind::Compose => {
            let in_longer = denote(longer, node)->Tuple_0;
            let in_shorter = denote(shorter, node)->Tuple_0;
            assert forall|k: int| 0 <= k < operands.len() implies in_longer[k] == in_shorter[k] by {
                if operands[k].index < node {
                    lemma_denote_kept(longer, shorter, operands[k].index as nat);
                }
            }
            assert(in_longer =~= in_shorter);
        },
        NodeKind::Extract { index } => {
            if operands.len() == 1 && operands[0].index < node {
                lemma_denote_kept(longer, shorter, operands[0].index as nat);
            }
        },
        NodeKind::Insert { index } => {
            if operands.len() == 2 && operands[0].index < node && operands[1].index < node {
                lemma_denote_kept(longer, shorter, operands[0].index as nat);
                lemma_denote_kept(longer, shorter, operands[1].index as nat);
            }
        },
        NodeKind::Load => {
            if operands.len() == 1 && operands[0].index < node {
                lemma_place_kept(longer, shorter, operands[0].index as nat);
                match place_of(shorter, operands[0].index as nat) {
                    Some((root, path)) => {
                        lemma_content_kept(longer, shorter, node, root);
                    },
                    None => {},
                }
            }
        },
        _ => {},
    }
}

/// Appending nodes does not change what a location held at an earlier point.
pub proof fn lemma_content_kept(longer: Seq<NodeView>, shorter: Seq<NodeView>, upto: nat, root: nat)
    requires
        extends(longer, shorter),
        upto <= shorter.len(),
    ensures
        content(longer, upto, root) == content(shorter, upto, root),
    decreases upto, 0nat,
{
    if upto > 0 {
        lemma_content_kept(longer, shorter, (upto - 1) as nat, root);
        assert(longer[upto - 1] == shorter[upto - 1]);
        let node = shorter[upto - 1];
        let operands = node.operands;
        if node.kind == NodeKind::Store && operands.len() == 2 && operands[0].index < upto - 1
            && operands[1].index < upto - 1 {
            lemma_place_kept(longer, shorter, operands[0].index as nat);
            lemma_denote_kept(longer, shorter, operands[1].index as nat);
        }
    }
}

} // verus!
