//! Embedding of host-defined composite types into a traced node graph.
//!
//! A composite type (a plain structure or a tagged union) is described by a
//! definition in [`schema`]. The [`compiler::Compiler`] turns a definition into
//! the proxies of that type; the other modules hold what those proxies do to
//! a [`graph::Graph`], a [`registry::TypeRegistry`] and a kernel's argument
//! list.
use vstd::prelude::*;
use crate::aggregate::{AggregateTable, TableView};
use crate::graph::{Graph, NodeView};
use crate::kernel_arg::{ArgTableView, KernelArgTable};
use crate::registry::{TypeRegistry, TypeView};

pub mod aggregate;
pub mod compiler;
pub mod device;
pub mod error;
pub mod graph;
pub mod kernel_arg;
pub mod layout;
pub mod lookup;
pub mod naming;
pub mod proxy;
pub mod registry;
pub mod schema;
pub mod semantics;

verus! {

/// What one compilation session shares between its traces: the types that
/// were registered and the protocols they were given. It is made once, by
/// [`init`], handed by reference to whatever needs it, and dropped when the
/// session ends. Each trace has a graph of its own.
pub struct Context {
    pub registry: TypeRegistry,
    pub aggregates: AggregateTable,
    pub kernel_args: KernelArgTable,
}

impl Context {
    /// The empty graph of a new trace.
    pub fn trace(&self) -> (graph: Graph)
        ensures
            graph@ == Seq::<NodeView>::empty(),
    {
        Graph::new()
    }
}

/// Sets up a compilation session: nothing is registered yet.
pub fn init() -> (context: Context)
    ensures
        context.registry@ == Seq::<TypeView>::empty(),
        context.aggregates@ == (TableView { names: Seq::empty(), shapes: Seq::empty() }),
        context.kernel_args@ == (ArgTableView { names: Seq::empty(), shapes: Seq::empty() }),
{
    Context {
        registry: TypeRegistry::new(),
        aggregates: AggregateTable::new(),
        kernel_args: KernelArgTable::new(),
    }
}

} // verus!
