//! What holds of the aggregate codec whatever the value.
use vstd::prelude::*;
use crate::aggregate::{
    conforms, decode, decode_fields, encoded_refs, encoded_refs_of_fields, fields_conform,
    tag_node, tag_nodes, tag_nodes_of_fields, ShapeView, ValueView,
};
use crate::error::BuildError;
use crate::graph::{payload_of, NodeRef, NodeView};

verus! {

/// Whether `part` stands in `whole` from position `at` on.
pub open spec fn occurs_at<T>(whole: Seq<T>, at: nat, part: Seq<T>) -> bool {
    at + part.len() <= whole.len() && forall|k: int|
        0 <= k < part.len() ==> whole[at + k] == #[trigger] part[k]
}

proof fn lemma_occurs_split<T>(whole: Seq<T>, at: nat, first: Seq<T>, second: Seq<T>)
    requires
        occurs_at(whole, at, first + second),
    ensures
        occurs_at(whole, at, first),
        occurs_at(whole, at + first.len(), second),
{
    let both = first + second;
    assert forall|k: int| 0 <= k < first.len() implies whole[at + k] == #[trigger] first[k] by {
        assert(both[k] == first[k]);
    }
    assert forall|k: int| 0 <= k < second.len() implies whole[at + first.len() + k]
        == #[trigger] second[k] by {
        assert(both[first.len() + k] == second[k]);
    }
}

proof fn lemma_decode_inverts(
    value: ValueView,
    shape: ShapeView,
    graph: Seq<NodeView>,
    refs: Seq<NodeRef>,
    base: nat,
    at: nat,
)
    requires
        conforms(value, shape),
        graph.len() <= usize::MAX,
        occurs_at(graph, base, tag_nodes(value)),
        occurs_at(refs, at, encoded_refs(value, base)),
    ensures
        decode(shape, graph, refs, at) == Ok::<(ValueView, nat), BuildError>(
            (value, at + encoded_refs(value, base).len()),
        ),
    decreases value, 0nat,
{
    match value {
        ValueView::Leaf(node) => {
            assert(encoded_refs(value, base)[0] == node);
        },
        ValueView::Struct(fields) => {
            let shapes = shape->Struct_0;
            lemma_decode_fields_invert(fields, shapes, fields.len(), graph, refs, base, at);
            assert(fields.take(fields.len() as int) =~= fields);
        },
        ValueView::Union { tag, fields } => {
            let shapes = shape->Union_0[tag as int];
            let head_node = seq![tag_node(tag)];
            let head_ref = seq![NodeRef { index: base as usize }];
            lemma_occurs_split(graph, base, head_node, tag_nodes_of_fields(fields, fields.len()));
            lemma_occurs_split(
                refs,
                at,
                head_ref,
                encoded_refs_of_fields(fields, fields.len(), base + 1),
            );
            assert(head_node[0] == tag_node(tag));
            assert(graph[base as int] == tag_node(tag));
            assert(head_ref[0] == NodeRef { index: base as usize });
            assert(refs[at as int] == NodeRef { index: base as usize });
            assert(payload_of(graph, refs[at as int]) == Some(tag));
            lemma_decode_fields_invert(fields, shapes, fields.len(), graph, refs, base + 1, at + 1);
            assert(fields.take(fields.len() as int) =~= fields);
        },
    }
}

proof fn lemma_decode_fields_invert(
    fields: Seq<ValueView>,
    shapes: Seq<ShapeView>,
    count: nat,
    graph: Seq<NodeView>,
    refs: Seq<NodeRef>,
    base: nat,
    at: nat,
)
    requires
        count <= fields.len(),
        fields.len() == shapes.len(),
        fields_conform(fields, shapes, count),
        graph.len() <= usize::MAX,
        occurs_at(graph, base, tag_nodes_of_fields(fields, count)),
        occurs_at(refs, at, encoded_refs_of_fields(fields, count, base)),
    ensures
        decode_fields(shapes, count, graph, refs, at) == Ok::<(Seq<ValueView>, nat), BuildError>(
            (fields.take(count as int), at + encoded_refs_of_fields(fields, count, base).len()),
        ),
    decreases fields, count,
{
    if count == 0 {
        assert(fields.take(0) =~= Seq::<ValueView>::empty());
    } else {
        let before = (count - 1) as nat;
        let nodes_before = tag_nodes_of_fields(fields, before);
        let refs_before = encoded_refs_of_fields(fields, before, base);
        lemma_occurs_split(graph, base, nodes_before, tag_nodes(fields[count - 1]));
        lemma_occurs_split(
            refs,
            at,
            refs_before,
            encoded_refs(fields[count - 1], base + nodes_before.len()),
        );
        lemma_decode_fields_invert(fields, shapes, before, graph, refs, base, at);
        lemma_decode_inverts(
            fields[count - 1],
            shapes[count - 1],
            graph,
            refs,
            base + nodes_before.len(),
            at + refs_before.len(),
        );
        assert(fields.take(count as int) =~= fields.take(before as int).push(fields[count - 1]));
    }
}

/// Decoding inverts encoding. Let `value` be a value of shape `shape`, plain
/// composite or tagged union, nested to any depth. After it is encoded into a
/// graph that held `graph` and onto a list that held `nodes`, decoding `shape`
/// from the place where its references begin gives `value` back, every field
/// and every tag, and ends exactly behind its last reference.
pub proof fn decode_inverts_encode(
    value: ValueView,
    shape: ShapeView,
    graph: Seq<NodeView>,
    nodes: Seq<NodeRef>,
)
    requires
        conforms(value, shape),
        graph.len() + tag_nodes(value).len() <= usize::MAX,
    ensures
        decode(
            shape,
            graph + tag_nodes(value),
            nodes + encoded_refs(value, graph.len()),
            nodes.len(),
        ) == Ok::<(ValueView, nat), BuildError>(
            (value, nodes.len() + encoded_refs(value, graph.len()).len()),
        ),
{
    let after_graph = graph + tag_nodes(value);
    let after_nodes = nodes + encoded_refs(value, graph.len());
    assert(occurs_at(after_graph, graph.len(), tag_nodes(value)));
    assert(occurs_at(after_nodes, nodes.len(), encoded_refs(value, graph.len())));
    lemma_decode_inverts(value, shape, after_graph, after_nodes, graph.len(), nodes.len());
}

/// Decoding inverts encoding for a tagged union: whatever the variant and its
/// payload, decoding what encoding produced gives the same tag and the same
/// payload.
pub proof fn decode_inverts_encode_of_union(
    tag: usize,
    payload: Seq<ValueView>,
    variants: Seq<Seq<ShapeView>>,
    graph: Seq<NodeView>,
    nodes: Seq<NodeRef>,
)
    requires
        conforms(ValueView::Union { tag, fields: payload }, ShapeView::Union(variants)),
        graph.len() + tag_nodes(ValueView::Union { tag, fields: payload }).len() <= usize::MAX,
    ensures
        ({
            let value = ValueView::Union { tag, fields: payload };
            let decoded = decode(
                ShapeView::Union(variants),
                graph + tag_nodes(value),
                nodes + encoded_refs(value, graph.len()),
                nodes.len(),
            );
            &&& decoded is Ok
            &&& decoded->Ok_0.0 is Union
            &&& decoded->Ok_0.0->tag == tag
            &&& decoded->Ok_0.0->fields == payload
        }),
{
    decode_inverts_encode(
        ValueView::Union { tag, fields: payload },
        ShapeView::Union(variants),
        graph,
        nodes,
    );
}

/// Encoding is determined by the value and the state it starts from: from
/// equal graphs and equal lists, encoding one value twice emits the same nodes
/// and appends the same references.
pub proof fn encoding_is_determined(
    value: ValueView,
    first_graph: Seq<NodeView>,
    first_nodes: Seq<NodeRef>,
    second_graph: Seq<NodeView>,
    second_nodes: Seq<NodeRef>,
)
    requires
        first_graph == second_graph,
        first_nodes == second_nodes,
    ensures
        first_graph + tag_nodes(value) == second_graph + tag_nodes(value),
        first_nodes + encoded_refs(value, first_graph.len()) == second_nodes + encoded_refs(
            value,
            second_graph.len(),
        ),
{
}

/// Whether two references stand at the same place of two encodings that
/// started when the graph held `first_base` and `second_base` nodes: they are
/// the same reference, or they refer to the tag nodes that the two encodings
/// emitted at the same step.
pub open spec fn same_place(first: NodeRef, first_base: nat, second: NodeRef, second_base: nat) -> bool {
    first == second || (first.index >= first_base && second.index >= second_base && first.index
        - first_base == second.index - second_base)
}

proof fn lemma_same_structure(value: ValueView, first_base: nat, second_base: nat)
    requires
        first_base + tag_nodes(value).len() <= usize::MAX,
        second_base + tag_nodes(value).len() <= usize::MAX,
    ensures
        encoded_refs(value, first_base).len() == encoded_refs(value, second_base).len(),
        forall|k: int|
            0 <= k < encoded_refs(value, first_base).len() ==> same_place(
                #[trigger] encoded_refs(value, first_base)[k],
                first_base,
                encoded_refs(value, second_base)[k],
                second_base,
            ),
    decreases value, 0nat,
{
    match value {
        ValueView::Leaf(_) => {},
        ValueView::Struct(fields) => {
            lemma_same_structure_of_fields(fields, fields.len(), first_base, second_base);
        },
        ValueView::Union { tag, fields } => {
            lemma_same_structure_of_fields(fields, fields.len(), first_base + 1, second_base + 1);
            let first = encoded_refs(value, first_base);
            let second = encoded_refs(value, second_base);
            let first_rest = encoded_refs_of_fields(fields, fields.len(), first_base + 1);
            let second_rest = encoded_refs_of_fields(fields, fields.len(), second_base + 1);
            assert forall|k: int| 0 <= k < first.len() implies same_place(
                #[trigger] first[k],
                first_base,
                second[k],
                second_base,
            ) by {
                if k > 0 {
                    assert(first[k] == first_rest[k - 1]);
                    assert(second[k] == second_rest[k - 1]);
                    assert(same_place(
                        first_rest[k - 1],
                        first_base + 1,
                        second_rest[k - 1],
                        second_base + 1,
                    ));
                }
            }
        },
    }
}

proof fn lemma_same_structure_of_fields(
    fields: Seq<ValueView>,
    count: nat,
    first_base: nat,
    second_base: nat,
)
    requires
        count <= fields.len(),
        first_base + tag_nodes_of_fields(fields, count).len() <= usize::MAX,
        second_base + tag_nodes_of_fields(fields, count).len() <= usize::MAX,
    ensures
        encoded_refs_of_fields(fields, count, first_base).len() == encoded_refs_of_fields(
            fields,
            count,
            second_base,
        ).len(),
        forall|k: int|
            0 <= k < encoded_refs_of_fields(fields, count, first_base).len() ==> same_place(
                #[trigger] encoded_refs_of_fields(fields, count, first_base)[k],
                first_base,
                encoded_refs_of_fields(fields, count, second_base)[k],
                second_base,
            ),
    decreases fields, count,
{
    if count > 0 {
        let before = (count - 1) as nat;
        let emitted = tag_nodes_of_fields(fields, before).len();
        lemma_same_structure_of_fields(fields, before, first_base, second_base);
        lemma_same_structure(fields[count - 1], first_base + emitted, second_base + emitted);
        let first = encoded_refs_of_fields(fields, count, first_base);
        let second = encoded_refs_of_fields(fields, count, second_base);
        let first_head = encoded_refs_of_fields(fields, before, first_base);
        let second_head = encoded_refs_of_fields(fields, before, second_base);
        let first_tail = encoded_refs(fields[count - 1], first_base + emitted);
        let second_tail = encoded_refs(fields[count - 1], second_base + emitted);
        assert forall|k: int| 0 <= k < first.len() implies same_place(
            #[trigger] first[k],
            first_base,
            second[k],
            second_base,
        ) by {
            if k < first_head.len() {
                assert(first[k] == first_head[k]);
                assert(second[k] == second_head[k]);
                assert(same_place(first_head[k], first_base, second_head[k], second_base));
            } else {
                let j = k - first_head.len();
                assert(first[k] == first_tail[j]);
                assert(second[k] == second_tail[j]);
                assert(same_place(
                    first_tail[j],
                    first_base + emitted,
                    second_tail[j],
                    second_base + emitted,
                ));
            }
        }
    }
}

/// Encoding one value again, later in the trace, repeats the structure of
/// the first encoding: it emits the same tag nodes, it appends as many
/// references, and at each position the two references are the same or refer
/// to the tag nodes that the two encodings emitted at the same step.
pub proof fn reencoding_repeats_structure(value: ValueView, first_base: nat, second_base: nat)
    requires
        first_base + tag_nodes(value).len() <= usize::MAX,
        second_base + tag_nodes(value).len() <= usize::MAX,
    ensures
        encoded_refs(value, first_base).len() == encoded_refs(value, second_base).len(),
        forall|k: int|
            0 <= k < encoded_refs(value, first_base).len() ==> same_place(
                #[trigger] encoded_refs(value, first_base)[k],
                first_base,
                encoded_refs(value, second_base)[k],
                second_base,
            ),
{
    lemma_same_structure(value, first_base, second_base);
}

} // verus!
