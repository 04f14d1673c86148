//! What holds of the handles in every graph: what was stored, replaced or
//! composed is what is read back.
use vstd::prelude::*;
use crate::graph::{NodeKind, NodeRef, NodeView};
use crate::proxy::{after_store_field, emit, fresh, nodes_of, ExprHandle, VarHandle};
use crate::semantics::{
    content, denote, equivalent, extends, lemma_denote_kept, lemma_place_kept,
    lemma_project_other, lemma_project_replaced, lemma_read_written, place_of, project, read_at,
    replace, write_at,
};

verus! {

/// Accessor and mutator are dual. Let `var` be a storage location of `graph`,
/// or a field inside one, and `value` a node of `graph`. After `value` is
/// stored into field `index` of `var`, what is loaded from `var` has in field
/// `index` a value equivalent to `value`, whatever had been stored in `var`
/// before.
pub proof fn stored_field_is_loaded(
    graph: Seq<NodeView>,
    var: VarHandle,
    index: usize,
    value: ExprHandle,
)
    requires
        place_of(graph, var.node.index as nat) is Some,
        value.node.index < graph.len(),
        graph.len() + 4 <= usize::MAX,
    ensures
        ({
            let stored = after_store_field(graph, var, index, value);
            let loaded = emit(stored, NodeKind::Load, seq![var.node]);
            let read_back = emit(loaded, NodeKind::Extract { index }, seq![fresh(stored)]);
            &&& equivalent(read_back, fresh(loaded), value.node)
            &&& denote(read_back, value.node.index as nat) == denote(graph, value.node.index as nat)
        }),
{
    let base: int = graph.len() as int;
    let stored = after_store_field(graph, var, index, value);
    let loaded = emit(stored, NodeKind::Load, seq![var.node]);
    let all = emit(loaded, NodeKind::Extract { index }, seq![fresh(stored)]);
    let (root, path) = place_of(graph, var.node.index as nat)->Some_0;
    assert(var.node.index < base);
    assert(extends(all, graph));
    lemma_place_kept(all, graph, var.node.index as nat);
    lemma_denote_kept(all, graph, value.node.index as nat);
    let stored_term = denote(all, value.node.index as nat);

    // the field's address
    assert(all[base as int] == NodeView {
        kind: NodeKind::FieldAddress { index },
        operands: seq![var.node],
    });
    assert(place_of(all, base as nat) == Some((root, path.push(index as nat))));

    // the store
    assert(all[base + 1] == NodeView {
        kind: NodeKind::Store,
        operands: seq![NodeRef { index: base as usize }, value.node],
    });
    let before = content(all, (base + 1) as nat, root);
    let field_path = path.push(index as nat);
    assert(content(all, (base + 2) as nat, root) == write_at(before, field_path, stored_term));
    assert(field_path.drop_last() =~= path);
    let inner = replace(read_at(before, path), index as nat, stored_term);
    assert(write_at(before, field_path, stored_term) == write_at(before, path, inner));
    lemma_read_written(before, path, inner);
    lemma_project_replaced(read_at(before, path), index as nat, stored_term);

    // the load and the read accessor
    assert(all[base + 2] == NodeView { kind: NodeKind::Load, operands: seq![var.node] });
    assert(denote(all, (base + 2) as nat) == read_at(content(all, (base + 2) as nat, root), path));
    assert(all[base + 3] == NodeView {
        kind: NodeKind::Extract { index },
        operands: seq![NodeRef { index: (base + 2) as usize }],
    });
    assert(denote(all, (base + 3) as nat) == project(denote(all, (base + 2) as nat), index as nat));
}

/// Replacing a field makes a new value and leaves the old one alone. Let
/// `whole` and `replacement` be nodes of `graph`. The field `index` of
/// `whole` with that field replaced by `replacement` is equivalent to
/// `replacement`, and `whole` stands for what it stood for before.
pub proof fn replaced_field_is_read(
    graph: Seq<NodeView>,
    whole: ExprHandle,
    index: usize,
    replacement: ExprHandle,
)
    requires
        whole.node.index < graph.len(),
        replacement.node.index < graph.len(),
        graph.len() + 2 <= usize::MAX,
    ensures
        ({
            let replaced = emit(
                graph,
                NodeKind::Insert { index },
                seq![whole.node, replacement.node],
            );
            let read_back = emit(replaced, NodeKind::Extract { index }, seq![fresh(graph)]);
            &&& equivalent(read_back, fresh(replaced), replacement.node)
            &&& denote(read_back, whole.node.index as nat) == denote(graph, whole.node.index as nat)
        }),
{
    let base: int = graph.len() as int;
    let replaced = emit(graph, NodeKind::Insert { index }, seq![whole.node, replacement.node]);
    let all = emit(replaced, NodeKind::Extract { index }, seq![fresh(graph)]);
    assert(extends(all, graph));
    lemma_denote_kept(all, graph, whole.node.index as nat);
    assert(all[base as int] == NodeView {
        kind: NodeKind::Insert { index },
        operands: seq![whole.node, replacement.node],
    });
    assert(all[base + 1] == NodeView {
        kind: NodeKind::Extract { index },
        operands: seq![NodeRef { index: base as usize }],
    });
    assert(denote(all, (base + 1) as nat) == project(denote(all, base as nat), index as nat));
    lemma_project_replaced(
        denote(all, whole.node.index as nat),
        index as nat,
        denote(all, replacement.node.index as nat),
    );
}

/// A composed value has the fields it was composed from. Let `fields` be
/// nodes of `graph`. The field `index` of the composite made of `fields` is
/// equivalent to the handle at position `index`.
pub proof fn composed_field_is_read(graph: Seq<NodeView>, fields: Seq<ExprHandle>, index: usize)
    requires
        forall|k: int| 0 <= k < fields.len() ==> (#[trigger] fields[k]).node.index < graph.len(),
        index < fields.len(),
        graph.len() + 2 <= usize::MAX,
    ensures
        ({
            let composed = emit(graph, NodeKind::Compose, nodes_of(fields));
            let read_back = emit(composed, NodeKind::Extract { index }, seq![fresh(graph)]);
            equivalent(read_back, fresh(composed), fields[index as int].node)
        }),
{
    let base: int = graph.len() as int;
    let composed = emit(graph, NodeKind::Compose, nodes_of(fields));
    let all = emit(composed, NodeKind::Extract { index }, seq![fresh(graph)]);
    assert(all[base as int] == NodeView { kind: NodeKind::Compose, operands: nodes_of(fields) });
    assert(all[base + 1] == NodeView {
        kind: NodeKind::Extract { index },
        operands: seq![NodeRef { index: base as usize }],
    });
    assert(fields[index as int].node.index < base);
    assert(nodes_of(fields)[index as int] == fields[index as int].node);
    assert(denote(all, base as nat)->Tuple_0[index as int] == denote(
        all,
        fields[index as int].node.index as nat,
    ));
    assert(denote(all, (base + 1) as nat) == project(denote(all, base as nat), index as nat));
}

/// What was stored is what is loaded. Let `var` be a storage location of
/// `graph`, or a field inside one, and `value` a node of `graph`. After
/// `value` is stored into `var`, what is loaded from `var` is equivalent to
/// `value`.
pub proof fn stored_value_is_loaded(graph: Seq<NodeView>, var: VarHandle, value: ExprHandle)
    requires
        place_of(graph, var.node.index as nat) is Some,
        value.node.index < graph.len(),
        graph.len() + 2 <= usize::MAX,
    ensures
        ({
            let stored = emit(graph, NodeKind::Store, seq![var.node, value.node]);
            let loaded = emit(stored, NodeKind::Load, seq![var.node]);
            equivalent(loaded, fresh(stored), value.node)
        }),
{
    let base: int = graph.len() as int;
    let stored = emit(graph, NodeKind::Store, seq![var.node, value.node]);
    let all = emit(stored, NodeKind::Load, seq![var.node]);
    let (root, path) = place_of(graph, var.node.index as nat)->Some_0;
    assert(var.node.index < base);
    assert(extends(all, graph));
    lemma_place_kept(all, graph, var.node.index as nat);
    let before = content(all, base as nat, root);
    assert(all[base] == NodeView { kind: NodeKind::Store, operands: seq![var.node, value.node] });
    assert(content(all, (base + 1) as nat, root) == write_at(
        before,
        path,
        denote(all, value.node.index as nat),
    ));
    lemma_read_written(before, path, denote(all, value.node.index as nat));
    assert(all[base + 1] == NodeView { kind: NodeKind::Load, operands: seq![var.node] });
    assert(denote(all, (base + 1) as nat) == read_at(content(all, (base + 1) as nat, root), path));
}

/// Storing into one field leaves the others alone. Let `var` be a storage
/// location of `graph`, or a field inside one, and `value` a node of `graph`.
/// A field other than `index` reads the same from what is loaded from `var`
/// after `value` was stored into field `index` as from what was loaded before.
pub proof fn store_leaves_other_fields(
    graph: Seq<NodeView>,
    var: VarHandle,
    index: usize,
    value: ExprHandle,
    other: usize,
)
    requires
        place_of(graph, var.node.index as nat) is Some,
        value.node.index < graph.len(),
        other != index,
        graph.len() + 6 <= usize::MAX,
    ensures
        ({
            let loaded_before = emit(graph, NodeKind::Load, seq![var.node]);
            let read_before = emit(
                loaded_before,
                NodeKind::Extract { index: other },
                seq![fresh(graph)],
            );
            let stored = after_store_field(read_before, var, index, value);
            let loaded = emit(stored, NodeKind::Load, seq![var.node]);
            let read_after = emit(loaded, NodeKind::Extract { index: other }, seq![fresh(stored)]);
            equivalent(read_after, fresh(loaded), fresh(loaded_before))
        }),
{
    let base: int = graph.len() as int;
    let loaded_before = emit(graph, NodeKind::Load, seq![var.node]);
    let read_before = emit(loaded_before, NodeKind::Extract { index: other }, seq![fresh(graph)]);
    let stored = after_store_field(read_before, var, index, value);
    let loaded = emit(stored, NodeKind::Load, seq![var.node]);
    let all = emit(loaded, NodeKind::Extract { index: other }, seq![fresh(stored)]);
    let (root, path) = place_of(graph, var.node.index as nat)->Some_0;
    assert(var.node.index < base);
    assert(extends(all, graph));
    lemma_place_kept(all, graph, var.node.index as nat);
    let stored_term = denote(all, value.node.index as nat);
    let before = content(all, base as nat, root);

    // the load and the read accessor before the store
    assert(all[base] == NodeView { kind: NodeKind::Load, operands: seq![var.node] });
    assert(denote(all, base as nat) == read_at(before, path));
    assert(all[base + 1] == NodeView {
        kind: NodeKind::Extract { index: other },
        operands: seq![NodeRef { index: base as usize }],
    });
    assert(denote(all, (base + 1) as nat) == project(read_at(before, path), other as nat));

    // neither of them, nor the field's address, stores anything
    assert(content(all, (base + 1) as nat, root) == before);
    assert(content(all, (base + 2) as nat, root) == before);
    assert(all[base + 2] == NodeView {
        kind: NodeKind::FieldAddress { index },
        operands: seq![var.node],
    });
    assert(content(all, (base + 3) as nat, root) == before);
    assert(place_of(all, (base + 2) as nat) == Some((root, path.push(index as nat))));

    // the store
    assert(all[base + 3] == NodeView {
        kind: NodeKind::Store,
        operands: seq![NodeRef { index: (base + 2) as usize }, value.node],
    });
    let field_path = path.push(index as nat);
    assert(content(all, (base + 4) as nat, root) == write_at(before, field_path, stored_term));
    assert(field_path.drop_last() =~= path);
    let inner = replace(read_at(before, path), index as nat, stored_term);
    assert(write_at(before, field_path, stored_term) == write_at(before, path, inner));
    lemma_read_written(before, path, inner);
    lemma_project_other(read_at(before, path), index as nat, stored_term, other as nat);

    // the load and the read accessor after the store
    assert(all[base + 4] == NodeView { kind: NodeKind::Load, operands: seq![var.node] });
    assert(denote(all, (base + 4) as nat) == read_at(content(all, (base + 4) as nat, root), path));
    assert(all[base + 5] == NodeView {
        kind: NodeKind::Extract { index: other },
        operands: seq![NodeRef { index: (base + 4) as usize }],
    });
    assert(denote(all, (base + 5) as nat) == project(
        denote(all, (base + 4) as nat),
        other as nat,
    ));
}

/// What [`VarHandle::declare`] gives is a storage location.
pub proof fn declared_is_location(graph: Seq<NodeView>)
    ensures
        place_of(emit(graph, NodeKind::Local, Seq::empty()), graph.len()) == Some(
            (graph.len(), Seq::<nat>::empty()),
        ),
{
}

/// What [`ValueProxy::var_field`] gives for a storage location is a storage
/// location: the field inside it.
pub proof fn field_of_location_is_location(graph: Seq<NodeView>, var: VarHandle, index: usize)
    requires
        place_of(graph, var.node.index as nat) is Some,
    ensures
        ({
            let (root, path) = place_of(graph, var.node.index as nat)->Some_0;
            place_of(
                emit(graph, NodeKind::FieldAddress { index }, seq![var.node]),
                graph.len(),
            ) == Some((root, path.push(index as nat)))
        }),
{
    let addressed = emit(graph, NodeKind::FieldAddress { index }, seq![var.node]);
    assert(var.node.index < graph.len());
    assert(extends(addressed, graph));
    lemma_place_kept(addressed, graph, var.node.index as nat);
    assert(addressed[graph.len() as int] == NodeView {
        kind: NodeKind::FieldAddress { index },
        operands: seq![var.node],
    });
}

} // verus!
