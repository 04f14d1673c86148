//! The graph-backed handles of a composite value type, and the proxy that
//! reads, replaces, stores and composes its fields.
use vstd::prelude::*;
use crate::error::BuildError;
use crate::graph::{Graph, NodeKind, NodeRef, NodeView};
use crate::layout::{layout_matches, validate_layout, Layout};
use crate::registry::{
    after_register, is_position_of, named, FieldDescriptor, FieldView, TypeDescriptor,
    TypeHandle, TypeKind, TypeRegistry, TypeView,
};

pub mod laws;

verus! {

/// An immutable handle: the value of a composite at one point of the trace.
#[derive(Clone, Copy, Debug, PartialEq, Eq, Structural)]
pub struct ExprHandle {
    pub node: NodeRef,
}

/// A mutable handle: an assignable storage location. Storing through it
/// emits nodes; the handle itself never comes to wrap another node.
#[derive(Clone, Copy, Debug, PartialEq, Eq, Structural)]
pub struct VarHandle {
    pub node: NodeRef,
}

/// `graph` with one node appended.
pub open spec fn emit(graph: Seq<NodeView>, kind: NodeKind, operands: Seq<NodeRef>) -> Seq<NodeView> {
    graph.push(NodeView { kind, operands })
}

/// The reference that the next node appended to `graph` gets.
pub open spec fn fresh(graph: Seq<NodeView>) -> NodeRef {
    NodeRef { index: graph.len() as usize }
}

/// The nodes wrapped by `handles`, one for one.
pub open spec fn nodes_of(handles: Seq<ExprHandle>) -> Seq<NodeRef> {
    Seq::new(handles.len(), |k: int| handles[k].node)
}

/// `graph` after a store of `value` into field `index` of the location
/// `var`: the field's address, then the store through it.
pub open spec fn after_store_field(
    graph: Seq<NodeView>,
    var: VarHandle,
    index: usize,
    value: ExprHandle,
) -> Seq<NodeView> {
    emit(
        emit(graph, NodeKind::FieldAddress { index }, seq![var.node]),
        NodeKind::Store,
        seq![fresh(graph), value.node],
    )
}

fn one_operand(first: NodeRef) -> (operands: Vec<NodeRef>)
    ensures
        operands@ == seq![first],
{
    let mut operands: Vec<NodeRef> = Vec::new();
    operands.push(first);
    assert(operands@ =~= seq![first]);
    operands
}

fn two_operands(first: NodeRef, second: NodeRef) -> (operands: Vec<NodeRef>)
    ensures
        operands@ == seq![first, second],
{
    let mut operands: Vec<NodeRef> = Vec::new();
    operands.push(first);
    operands.push(second);
    assert(operands@ =~= seq![first, second]);
    operands
}

impl VarHandle {
    /// Declares a new storage location in `graph`.
    pub fn declare(graph: &mut Graph) -> (var: VarHandle)
        ensures
            final(graph)@ == emit(old(graph)@, NodeKind::Local, Seq::empty()),
            var.node == fresh(old(graph)@),
    {
        VarHandle { node: graph.allocate_node(NodeKind::Local, Vec::new()) }
    }

    /// Reads the location: emits a `Load` node and wraps it.
    pub fn load(&self, graph: &mut Graph) -> (value: ExprHandle)
        ensures
            final(graph)@ == emit(old(graph)@, NodeKind::Load, seq![self.node]),
            value.node == fresh(old(graph)@),
    {
        ExprHandle { node: graph.allocate_node(NodeKind::Load, one_operand(self.node)) }
    }

    /// Records `value` as the new contents of the location: emits a `Store` node.
    pub fn store(&self, graph: &mut Graph, value: ExprHandle)
        ensures
            final(graph)@ == emit(old(graph)@, NodeKind::Store, seq![self.node, value.node]),
    {
        let _ = graph.allocate_node(NodeKind::Store, two_operands(self.node, value.node));
    }
}

/// An argument of the marker that ties a proxy to the parameters of its composite.
#[derive(Debug, PartialEq, Eq)]
pub enum MarkerArg {
    /// A type parameter, by its name.
    Type(String),
    /// A reference with the lifetime of this name (leading quote included) to a 32-bit word.
    LifetimeRef(String),
}

/// One field of a proxy, at its declared position.
#[derive(Debug, PartialEq, Eq)]
pub struct ProxyField {
    /// The field's name, which is also the name of its read accessor.
    pub name: String,
    /// The name of the operation that replaces or stores the field: `set_` and the field's name.
    pub setter: String,
    /// The field's type as written.
    pub ty: String,
}

/// The proxy of one composite value type.
#[derive(Debug, PartialEq, Eq)]
pub struct ValueProxy {
    /// The composite's name.
    pub name: String,
    /// The name of its expression handle type: the composite's name and `Expr`.
    pub expr_name: String,
    /// The name of its variable handle type: the composite's name and `Var`.
    pub var_name: String,
    /// The name of its constructor record: the composite's name and `Init`.
    pub init_name: String,
    /// One marker argument for each parameter of the composite, in declared order.
    pub marker_args: Vec<MarkerArg>,
    /// The fields in declared order.
    pub fields: Vec<ProxyField>,
}

impl ValueProxy {
    /// The number of fields.
    pub fn field_count(&self) -> (count: usize)
        ensures
            count == self.fields@.len(),
    {
        self.fields.len()
    }

    /// The names of the fields, in declared order.
    pub fn field_names(&self) -> (names: Vec<String>)
        ensures
            names@.len() == self.fields@.len(),
            forall|i: int| 0 <= i < names@.len() ==> (#[trigger] names@[i])@ == self.fields@[i].name@,
    {
        let mut names: Vec<String> = Vec::new();
        let mut i: usize = 0;
        while i < self.fields.len()
            invariant
                i <= self.fields@.len(),
                names@.len() == i,
                forall|j: int| 0 <= j < i ==> (#[trigger] names@[j])@ == self.fields@[j].name@,
            decreases self.fields@.len() - i,
        {
            names.push(self.fields[i].name.clone());
            i += 1;
        }
        names
    }

    /// Whether field `position` is the first field named `name`.
    pub open spec fn is_first_named(&self, name: Seq<char>, position: int) -> bool {
        &&& 0 <= position < self.fields@.len()
        &&& self.fields@[position].name@ == name
        &&& forall|j: int| 0 <= j < position ==> (#[trigger] self.fields@[j]).name@ != name
    }

    /// The position of the first field named `name`, if there is one.
    pub fn index_of(&self, name: &str) -> (position: Option<usize>)
        ensures
            match position {
                Some(i) => self.is_first_named(name@, i as int),
                None => forall|j: int|
                    0 <= j < self.fields@.len() ==> (#[trigger] self.fields@[j]).name@ != name@,
            },
    {
        let wanted = String::from_str(name);
        let mut i: usize = 0;
        while i < self.fields.len()
            invariant
                i <= self.fields@.len(),
                wanted@ == name@,
                forall|j: int| 0 <= j < i ==> (#[trigger] self.fields@[j]).name@ != name@,
            decreases self.fields@.len() - i,
        {
            if self.fields[i].name == wanted {
                return Some(i);
            }
            i += 1;
        }
        None
    }

    /// The read accessor of field `index`: emits an `Extract` node from the
    /// composite's node and wraps it. `value` itself is left as it is. `None`,
    /// and nothing emitted, when the composite has no such field.
    pub fn field(&self, graph: &mut Graph, value: ExprHandle, index: usize) -> (field: Option<
        ExprHandle,
    >)
        ensures
            index < self.fields@.len() ==> field == Some(ExprHandle { node: fresh(old(graph)@) })
                && final(graph)@ == emit(old(graph)@, NodeKind::Extract { index }, seq![value.node]),
            index >= self.fields@.len() ==> field is None && final(graph)@ == old(graph)@,
    {
        if index < self.fields.len() {
            let node = graph.allocate_node(NodeKind::Extract { index }, one_operand(value.node));
            Some(ExprHandle { node })
        } else {
            None
        }
    }

    /// The composite with field `index` replaced: emits an `Insert` node that
    /// copies `value` and replaces the field by `replacement`, and wraps it.
    /// `value` itself is left as it is. `None`, and nothing emitted, when the
    /// composite has no such field.
    pub fn set_field(
        &self,
        graph: &mut Graph,
        value: ExprHandle,
        index: usize,
        replacement: ExprHandle,
    ) -> (replaced: Option<ExprHandle>)
        ensures
            index < self.fields@.len() ==> replaced == Some(ExprHandle { node: fresh(old(graph)@) })
                && final(graph)@ == emit(
                old(graph)@,
                NodeKind::Insert { index },
                seq![value.node, replacement.node],
            ),
            index >= self.fields@.len() ==> replaced is None && final(graph)@ == old(graph)@,
    {
        if index < self.fields.len() {
            let node = graph.allocate_node(
                NodeKind::Insert { index },
                two_operands(value.node, replacement.node),
            );
            Some(ExprHandle { node })
        } else {
            None
        }
    }

    /// The composing constructor: takes one handle per field, in declared
    /// order, emits a single `Compose` node over them and wraps it. `None`,
    /// and nothing emitted, unless there is exactly one handle per field.
    pub fn compose(&self, graph: &mut Graph, fields: &Vec<ExprHandle>) -> (whole: Option<ExprHandle>)
        ensures
            fields@.len() == self.fields@.len() ==> whole == Some(
                ExprHandle { node: fresh(old(graph)@) },
            ) && final(graph)@ == emit(old(graph)@, NodeKind::Compose, nodes_of(fields@)),
            fields@.len() != self.fields@.len() ==> whole is None && final(graph)@ == old(graph)@,
    {
        if fields.len() != self.fields.len() {
            return None;
        }
        let mut operands: Vec<NodeRef> = Vec::new();
        let mut i: usize = 0;
        while i < fields.len()
            invariant
                i <= fields@.len(),
                operands@ == nodes_of(fields@.take(i as int)),
            decreases fields@.len() - i,
        {
            operands.push(fields[i].node);
            assert(operands@ =~= nodes_of(fields@.take(i + 1)));
            i += 1;
        }
        assert(fields@.take(fields@.len() as int) =~= fields@);
        let node = graph.allocate_node(NodeKind::Compose, operands);
        Some(ExprHandle { node })
    }

    /// The location of field `index` inside the location `var`: emits a
    /// `FieldAddress` node and wraps it. `None`, and nothing emitted, when the
    /// composite has no such field.
    pub fn var_field(&self, graph: &mut Graph, var: VarHandle, index: usize) -> (field: Option<
        VarHandle,
    >)
        ensures
            index < self.fields@.len() ==> field == Some(VarHandle { node: fresh(old(graph)@) })
                && final(graph)@ == emit(
                old(graph)@,
                NodeKind::FieldAddress { index },
                seq![var.node],
            ),
            index >= self.fields@.len() ==> field is None && final(graph)@ == old(graph)@,
    {
        if index < self.fields.len() {
            let node = graph.allocate_node(NodeKind::FieldAddress { index }, one_operand(var.node));
            Some(VarHandle { node })
        } else {
            None
        }
    }

    /// The store mutator of field `index`: takes the field's location inside
    /// `var` and stores `value` through it. Returns whether the composite has
    /// such a field; nothing is emitted when it has not.
    pub fn store_field(&self, graph: &mut Graph, var: VarHandle, index: usize, value: ExprHandle) -> (stored:
        bool)
        ensures
            stored == (index < self.fields@.len()),
            stored ==> final(graph)@ == after_store_field(old(graph)@, var, index, value),
            !stored ==> final(graph)@ == old(graph)@,
    {
        match self.var_field(graph, var, index) {
            Some(field) => {
                field.store(graph, value);
                true
            },
            None => false,
        }
    }
}

/// Whether the type of each of `fields` is registered in `types`.
pub open spec fn all_registered(types: Seq<TypeView>, fields: Seq<ProxyField>) -> bool {
    forall|i: int| 0 <= i < fields.len() ==> named(types, (#[trigger] fields[i]).ty@) is Some
}

/// The handle in `types` of the type of each of `fields`, one for one.
pub open spec fn field_handles(types: Seq<TypeView>, fields: Seq<ProxyField>) -> Seq<TypeHandle> {
    Seq::new(fields.len(), |i: int| named(types, fields[i].ty@)->0)
}

/// The size and alignment in `types` of the type of each of `fields`, one for one.
pub open spec fn field_layouts(types: Seq<TypeView>, fields: Seq<ProxyField>) -> Seq<Layout> {
    Seq::new(fields.len(), |i: int| types[named(types, fields[i].ty@)->0.index as int].layout)
}

/// The descriptors of `fields` with their types resolved in `types`, one for one.
pub open spec fn field_views(types: Seq<TypeView>, fields: Seq<ProxyField>) -> Seq<FieldView> {
    Seq::new(
        fields.len(),
        |i: int| FieldView { name: fields[i].name@, ty: named(types, fields[i].ty@)->0 },
    )
}

impl ValueProxy {
    /// The descriptor of the composite when its host layout is `host` and
    /// the types of its fields are those registered in `types`.
    pub open spec fn descriptor(&self, types: Seq<TypeView>, host: Layout) -> TypeView {
        TypeView {
            name: self.name@,
            kind: TypeKind::Struct,
            fields: field_views(types, self.fields@),
            layout: host,
        }
    }

    /// Registers the composite and returns its handle. The type of every
    /// field must be registered already, else the result is
    /// `UnregisteredFieldType`; the layout that the fields imply must be the
    /// host-measured `host`, else the result is `LayoutMismatch`. On a failure
    /// the registry stays as it is.
    pub fn type_of(&self, host: Layout, registry: &mut TypeRegistry) -> (result: Result<
        TypeHandle,
        BuildError,
    >)
        ensures
            match result {
                Ok(handle) => {
                    &&& all_registered(old(registry)@, self.fields@)
                    &&& layout_matches(field_layouts(old(registry)@, self.fields@), host)
                    &&& final(registry)@ == after_register(
                        old(registry)@,
                        self.descriptor(old(registry)@, host),
                    )
                    &&& is_position_of(
                        final(registry)@,
                        self.descriptor(old(registry)@, host),
                        handle.index as int,
                    )
                },
                Err(e) => {
                    &&& final(registry)@ == old(registry)@
                    &&& if all_registered(old(registry)@, self.fields@) {
                        e == BuildError::LayoutMismatch && !layout_matches(
                            field_layouts(old(registry)@, self.fields@),
                            host,
                        )
                    } else {
                        e == BuildError::UnregisteredFieldType
                    }
                },
            },
    {
        let ghost types = registry@;
        let mut layouts: Vec<Layout> = Vec::new();
        let mut fields: Vec<FieldDescriptor> = Vec::new();
        let mut i: usize = 0;
        let count = registry.len();
        while i < self.fields.len()
            invariant
                i <= self.fields@.len(),
                registry@ == types,
                types == old(registry)@,
                types.len() == count,
                forall|k: int| 0 <= k < i ==> named(types, (#[trigger] self.fields@[k]).ty@) is Some,
                fields@.len() == i,
                layouts@ == field_layouts(types, self.fields@.take(i as int)),
                fields@.map_values(|f: FieldDescriptor| f@) == field_views(
                    types,
                    self.fields@.take(i as int),
                ),
            decreases self.fields@.len() - i,
        {
            let field = &self.fields[i];
            match registry.resolve(field.ty.as_str()) {
                None => {
                    return Err(BuildError::UnregisteredFieldType);
                },
                Some((handle, layout)) => {
                    let ghost before = fields@;
                    let described = FieldDescriptor { name: field.name.clone(), ty: handle };
                    assert(described@ == FieldView { name: field.name@, ty: handle });
                    layouts.push(layout);
                    fields.push(described);
                    let ghost mapped = fields@.map_values(|f: FieldDescriptor| f@);
                    let ghost wanted = field_views(types, self.fields@.take(i + 1));
                    assert forall|k: int| 0 <= k < i + 1 implies mapped[k] == #[trigger] wanted[k] by {
                        if k < i {
                            assert(fields@[k] == before[k]);
                            assert(before.map_values(|f: FieldDescriptor| f@)[k] == field_views(
                                types,
                                self.fields@.take(i as int),
                            )[k]);
                            assert(self.fields@.take(i as int)[k] == self.fields@.take(i + 1)[k]);
                        } else {
                            assert(fields@[k] == described);
                            assert(self.fields@.take(i + 1)[k] == *field);
                        }
                    }
                    assert(self.fields@.take(i + 1)[i as int] == self.fields@[i as int]);
                    assert(layouts@ =~= field_layouts(types, self.fields@.take(i + 1)));
                    assert(mapped =~= wanted);
                },
            }
            i += 1;
        }
        assert(self.fields@.take(self.fields@.len() as int) =~= self.fields@);
        match validate_layout(&layouts, host) {
            Err(e) => Err(e),
            Ok(()) => {
                let descriptor = TypeDescriptor {
                    name: self.name.clone(),
                    kind: TypeKind::Struct,
                    fields,
                    layout: host,
                };
                assert(descriptor@ == self.descriptor(types, host));
                Ok(registry.register(descriptor))
            },
        }
    }
}

} // verus!
