//! The aggregate codec: flattening a composite value into an ordered
//! sequence of node references, and rebuilding it from one.
use vstd::prelude::*;
use crate::error::BuildError;
use crate::graph::{Graph, NodeKind, NodeRef, NodeView, payload_of};

pub mod laws;
pub mod table;

pub use self::table::{
    AggregateBody, AggregateField, AggregateProxy, AggregateTable, AggregateVariant, TableView,
    VariantForm,
};

verus! {

/// The shape of an aggregate type.
#[derive(Debug, PartialEq, Eq)]
pub enum AggShape {
    /// A terminal: one node reference.
    Leaf,
    /// A plain composite: its fields in declared order.
    Struct(Vec<AggShape>),
    /// A tagged union: for each variant, in tag order, its fields in declared order.
    Union(Vec<Vec<AggShape>>),
}

/// An aggregate value.
#[derive(Debug, PartialEq, Eq)]
pub enum AggValue {
    /// A terminal: the node that holds it.
    Leaf(NodeRef),
    /// A plain composite: the values of its fields in declared order.
    Struct(Vec<AggValue>),
    /// A tagged union: the live variant's tag and the values of that variant's fields.
    Union { tag: usize, fields: Vec<AggValue> },
}

/// The mathematical form of an [`AggShape`].
pub enum ShapeView {
    Leaf,
    Struct(Seq<ShapeView>),
    Union(Seq<Seq<ShapeView>>),
}

/// The mathematical form of an [`AggValue`].
pub enum ValueView {
    Leaf(NodeRef),
    Struct(Seq<ValueView>),
    Union { tag: usize, fields: Seq<ValueView> },
}

/// The mathematical form of a shape.
pub open spec fn shape_view(shape: AggShape) -> ShapeView
    decreases shape,
{
    match shape {
        AggShape::Leaf => ShapeView::Leaf,
        AggShape::Struct(fields) => ShapeView::Struct(shapes_view(fields@)),
        AggShape::Union(variants) => ShapeView::Union(variants_view(variants@)),
    }
}

/// The mathematical forms of a list of shapes, one for one.
pub open spec fn shapes_view(shapes: Seq<AggShape>) -> Seq<ShapeView>
    decreases shapes,
{
    Seq::new(
        shapes.len(),
        |i: int|
            if 0 <= i < shapes.len() {
                shape_view(shapes[i])
            } else {
                ShapeView::Leaf
            },
    )
}

/// The mathematical forms of the variants of a tagged union, one for one.
pub open spec fn variants_view(variants: Seq<Vec<AggShape>>) -> Seq<Seq<ShapeView>>
    decreases variants,
{
    Seq::new(
        variants.len(),
        |k: int|
            if 0 <= k < variants.len() {
                shapes_view(variants[k]@)
            } else {
                Seq::empty()
            },
    )
}

/// The mathematical form of a value.
pub open spec fn value_view(value: AggValue) -> ValueView
    decreases value,
{
    match value {
        AggValue::Leaf(node) => ValueView::Leaf(node),
        AggValue::Struct(fields) => ValueView::Struct(values_view(fields@)),
        AggValue::Union { tag, fields } => ValueView::Union { tag, fields: values_view(fields@) },
    }
}

/// The mathematical forms of a list of values, one for one.
pub open spec fn values_view(values: Seq<AggValue>) -> Seq<ValueView>
    decreases values,
{
    Seq::new(
        values.len(),
        |i: int|
            if 0 <= i < values.len() {
                value_view(values[i])
            } else {
                ValueView::Leaf(NodeRef { index: 0 })
            },
    )
}

impl View for AggShape {
    type V = ShapeView;

    open spec fn view(&self) -> ShapeView {
        shape_view(*self)
    }
}

impl View for AggValue {
    type V = ValueView;

    open spec fn view(&self) -> ValueView {
        value_view(*self)
    }
}

/// The synthetic node that carries the variant tag `tag`.
pub open spec fn tag_node(tag: usize) -> NodeView {
    NodeView { kind: NodeKind::UserData { payload: tag }, operands: Seq::empty() }
}

/// The nodes that encoding `value` emits: one tag node for each tagged union
/// in it, outermost first, fields in declared order.
pub open spec fn tag_nodes(value: ValueView) -> Seq<NodeView>
    decreases value, 0nat,
{
    match value {
        ValueView::Leaf(_) => Seq::empty(),
        ValueView::Struct(fields) => tag_nodes_of_fields(fields, fields.len()),
        ValueView::Union { tag, fields } => seq![tag_node(tag)] + tag_nodes_of_fields(
            fields,
            fields.len(),
        ),
    }
}

/// The nodes that encoding the first `count` of `fields` emits.
pub open spec fn tag_nodes_of_fields(fields: Seq<ValueView>, count: nat) -> Seq<NodeView>
    decreases fields, count,
{
    if count == 0 || count > fields.len() {
        Seq::empty()
    } else {
        tag_nodes_of_fields(fields, (count - 1) as nat) + tag_nodes(fields[count - 1])
    }
}

/// The references that encoding `value` appends when the graph holds `base`
/// nodes before: a terminal gives its own node; a plain composite gives the
/// references of its fields in declared order, with no marker around them; a
/// tagged union gives the reference to its fresh tag node, then those of the
/// live variant's fields.
pub open spec fn encoded_refs(value: ValueView, base: nat) -> Seq<NodeRef>
    decreases value, 0nat,
{
    match value {
        ValueView::Leaf(node) => seq![node],
        ValueView::Struct(fields) => encoded_refs_of_fields(fields, fields.len(), base),
        ValueView::Union { tag, fields } => seq![NodeRef { index: base as usize }]
            + encoded_refs_of_fields(fields, fields.len(), base + 1),
    }
}

/// The references that encoding the first `count` of `fields` appends when
/// the graph holds `base` nodes before.
pub open spec fn encoded_refs_of_fields(fields: Seq<ValueView>, count: nat, base: nat) -> Seq<
    NodeRef,
>
    decreases fields, count,
{
    if count == 0 || count > fields.len() {
        Seq::empty()
    } else {
        encoded_refs_of_fields(fields, (count - 1) as nat, base) + encoded_refs(
            fields[count - 1],
            base + tag_nodes_of_fields(fields, (count - 1) as nat).len(),
        )
    }
}

impl AggValue {
    /// Encodes the value: appends its references to `nodes`, in the order in
    /// which [`AggregateCodec::from_nodes`] reads them, and emits into `graph`
    /// one tag node for each tagged union in it.
    pub fn to_nodes(&self, graph: &mut Graph, nodes: &mut Vec<NodeRef>)
        ensures
            final(graph)@ == old(graph)@ + tag_nodes(self@),
            final(nodes)@ == old(nodes)@ + encoded_refs(self@, old(graph)@.len()),
        decreases self,
    {
        match self {
            AggValue::Leaf(node) => {
                nodes.push(*node);
                assert(graph@ =~= old(graph)@ + tag_nodes(self@));
                assert(nodes@ =~= old(nodes)@ + encoded_refs(self@, old(graph)@.len()));
            },
            AggValue::Struct(fields) => {
                fields_to_nodes(fields, graph, nodes);
            },
            AggValue::Union { tag, fields } => {
                let tag_ref = graph.new_user_node(*tag);
                nodes.push(tag_ref);
                fields_to_nodes(fields, graph, nodes);
                assert(graph@ =~= old(graph)@ + tag_nodes(self@));
                assert(nodes@ =~= old(nodes)@ + encoded_refs(self@, old(graph)@.len()));
            },
        }
    }
}

/// Encodes `fields` one after the other, in declared order.
fn fields_to_nodes(fields: &Vec<AggValue>, graph: &mut Graph, nodes: &mut Vec<NodeRef>)
    ensures
        final(graph)@ == old(graph)@ + tag_nodes_of_fields(values_view(fields@), fields@.len()),
        final(nodes)@ == old(nodes)@ + encoded_refs_of_fields(
            values_view(fields@),
            fields@.len(),
            old(graph)@.len(),
        ),
    decreases fields,
{
    let ghost views = values_view(fields@);
    let mut i: usize = 0;
    assert(graph@ =~= old(graph)@ + tag_nodes_of_fields(views, 0));
    assert(nodes@ =~= old(nodes)@ + encoded_refs_of_fields(views, 0, old(graph)@.len()));
    while i < fields.len()
        invariant
            i <= fields@.len(),
            views == values_view(fields@),
            graph@ == old(graph)@ + tag_nodes_of_fields(views, i as nat),
            nodes@ == old(nodes)@ + encoded_refs_of_fields(views, i as nat, old(graph)@.len()),
        decreases fields@.len() - i,
    {
        fields[i].to_nodes(graph, nodes);
        proof {
            assert(views[i as int] == fields@[i as int]@);
            assert(graph@ =~= old(graph)@ + tag_nodes_of_fields(views, (i + 1) as nat));
            assert(nodes@ =~= old(nodes)@ + encoded_refs_of_fields(
                views,
                (i + 1) as nat,
                old(graph)@.len(),
            ));
        }
        i += 1;
    }
}

/// What decoding gives: the value and the position after the last reference
/// read, or the failure.
pub type Decoded = Result<(ValueView, nat), BuildError>;

/// Decodes one value of shape `shape` from `refs`, starting at position `at`:
/// a terminal is the next reference; a plain composite is its fields, one
/// after the other; a tagged union is the tag carried by the node behind the
/// next reference, then the fields of the variant with that tag. It fails
/// with `MissingReference` where a reference is wanted and none is left, and
/// with `InvalidVariant` where the node carries no tag of the union.
pub open spec fn decode(shape: ShapeView, graph: Seq<NodeView>, refs: Seq<NodeRef>, at: nat) -> Decoded
    decreases shape, 0nat,
{
    match shape {
        ShapeView::Leaf => if at < refs.len() {
            Ok((ValueView::Leaf(refs[at as int]), at + 1))
        } else {
            Err(BuildError::MissingReference)
        },
        ShapeView::Struct(fields) => match decode_fields(fields, fields.len(), graph, refs, at) {
            Ok((values, next)) => Ok((ValueView::Struct(values), next)),
            Err(e) => Err(e),
        },
        ShapeView::Union(variants) => if at < refs.len() {
            match payload_of(graph, refs[at as int]) {
                Some(tag) => if tag < variants.len() {
                    match decode_fields(
                        variants[tag as int],
                        variants[tag as int].len(),
                        graph,
                        refs,
                        at + 1,
                    ) {
                        Ok((values, next)) => Ok((ValueView::Union { tag, fields: values }, next)),
                        Err(e) => Err(e),
                    }
                } else {
                    Err(BuildError::InvalidVariant)
                },
                None => Err(BuildError::InvalidVariant),
            }
        } else {
            Err(BuildError::MissingReference)
        },
    }
}

/// Decodes the first `count` of `shapes`, one after the other, starting at
/// position `at`; the first failure is the result.
pub open spec fn decode_fields(
    shapes: Seq<ShapeView>,
    count: nat,
    graph: Seq<NodeView>,
    refs: Seq<NodeRef>,
    at: nat,
) -> Result<(Seq<ValueView>, nat), BuildError>
    decreases shapes, count,
{
    if count == 0 || count > shapes.len() {
        Ok((Seq::empty(), at))
    } else {
        match decode_fields(shapes, (count - 1) as nat, graph, refs, at) {
            Ok((values, middle)) => match decode(shapes[count - 1], graph, refs, middle) {
                Ok((value, next)) => Ok((values.push(value), next)),
                Err(e) => Err(e),
            },
            Err(e) => Err(e),
        }
    }
}

/// Whether `result` is `expected`, the value taken by its view.
pub open spec fn decoded_as(result: Result<(AggValue, usize), BuildError>, expected: Decoded) -> bool {
    match result {
        Ok((value, next)) => expected == Ok::<(ValueView, nat), BuildError>((value@, next as nat)),
        Err(e) => expected == Err::<(ValueView, nat), BuildError>(e),
    }
}

/// A failure among the first fields is the failure of the whole list.
proof fn lemma_decode_fields_fails(
    shapes: Seq<ShapeView>,
    failing: nat,
    count: nat,
    graph: Seq<NodeView>,
    refs: Seq<NodeRef>,
    at: nat,
)
    requires
        failing <= count <= shapes.len(),
        decode_fields(shapes, failing, graph, refs, at) is Err,
    ensures
        decode_fields(shapes, count, graph, refs, at) == decode_fields(
            shapes,
            failing,
            graph,
            refs,
            at,
        ),
    decreases count,
{
    if failing < count {
        lemma_decode_fields_fails(shapes, failing, (count - 1) as nat, graph, refs, at);
    }
}

/// The codec of one aggregate type.
#[derive(Debug, PartialEq, Eq)]
pub struct AggregateCodec {
    /// The type's name.
    pub name: String,
    /// The type's shape, which decoding replays.
    pub shape: AggShape,
}

impl AggregateCodec {
    /// Decodes one value of this type from `nodes`, starting at position
    /// `start`, and returns it with the position after the last reference read.
    /// Tags are read from `graph`.
    pub fn from_nodes(&self, graph: &Graph, nodes: &Vec<NodeRef>, start: usize) -> (result: Result<
        (AggValue, usize),
        BuildError,
    >)
        ensures
            decoded_as(result, decode(self.shape@, graph@, nodes@, start as nat)),
    {
        decode_shape(&self.shape, graph, nodes, start)
    }
}

fn decode_shape(shape: &AggShape, graph: &Graph, nodes: &Vec<NodeRef>, start: usize) -> (result:
    Result<(AggValue, usize), BuildError>)
    ensures
        decoded_as(result, decode(shape@, graph@, nodes@, start as nat)),
    decreases shape,
{
    match shape {
        AggShape::Leaf => {
            if start < nodes.len() {
                Ok((AggValue::Leaf(nodes[start]), start + 1))
            } else {
                Err(BuildError::MissingReference)
            }
        },
        AggShape::Struct(fields) => {
            match decode_shapes(fields, graph, nodes, start) {
                Ok((values, next)) => Ok((AggValue::Struct(values), next)),
                Err(e) => Err(e),
            }
        },
        AggShape::Union(variants) => {
            if start < nodes.len() {
                match graph.user_data(nodes[start]) {
                    Some(tag) => {
                        if tag < variants.len() {
                            assert(variants_view(variants@)[tag as int] == shapes_view(
                                variants@[tag as int]@,
                            ));
                            match decode_shapes(&variants[tag], graph, nodes, start + 1) {
                                Ok((values, next)) => Ok((AggValue::Union { tag, fields: values }, next)),
                                Err(e) => Err(e),
                            }
                        } else {
                            Err(BuildError::InvalidVariant)
                        }
                    },
                    None => Err(BuildError::InvalidVariant),
                }
            } else {
                Err(BuildError::MissingReference)
            }
        },
    }
}

fn decode_shapes(shapes: &Vec<AggShape>, graph: &Graph, nodes: &Vec<NodeRef>, start: usize) -> (result:
    Result<(Vec<AggValue>, usize), BuildError>)
    ensures
        match result {
            Ok((values, next)) => decode_fields(
                shapes_view(shapes@),
                shapes@.len(),
                graph@,
                nodes@,
                start as nat,
            ) == Ok::<(Seq<ValueView>, nat), BuildError>((values_view(values@), next as nat)),
            Err(e) => decode_fields(shapes_view(shapes@), shapes@.len(), graph@, nodes@, start as nat)
                == Err::<(Seq<ValueView>, nat), BuildError>(e),
        },
    decreases shapes,
{
    let ghost views = shapes_view(shapes@);
    let mut values: Vec<AggValue> = Vec::new();
    let mut position = start;
    let mut i: usize = 0;
    assert(values_view(values@) =~= Seq::<ValueView>::empty());
    while i < shapes.len()
        invariant
            i <= shapes@.len(),
            views == shapes_view(shapes@),
            decode_fields(views, i as nat, graph@, nodes@, start as nat) == Ok::<
                (Seq<ValueView>, nat),
                BuildError,
            >((values_view(values@), position as nat)),
        decreases shapes@.len() - i,
    {
        assert(views[i as int] == shapes@[i as int]@);
        match decode_shape(&shapes[i], graph, nodes, position) {
            Ok((value, next)) => {
                let ghost before = values@;
                values.push(value);
                assert(values_view(values@) =~= values_view(before).push(value@));
                position = next;
            },
            Err(e) => {
                proof {
                    lemma_decode_fields_fails(
                        views,
                        (i + 1) as nat,
                        shapes@.len() as nat,
                        graph@,
                        nodes@,
                        start as nat,
                    );
                }
                return Err(e);
            },
        }
        i += 1;
    }
    Ok((values, position))
}

/// Whether `value` is a value of shape `shape`.
pub open spec fn conforms(value: ValueView, shape: ShapeView) -> bool
    decreases value, 0nat,
{
    match value {
        ValueView::Leaf(_) => shape is Leaf,
        ValueView::Struct(fields) => match shape {
            ShapeView::Struct(shapes) => fields.len() == shapes.len() && fields_conform(
                fields,
                shapes,
                fields.len(),
            ),
            _ => false,
        },
        ValueView::Union { tag, fields } => match shape {
            ShapeView::Union(variants) => tag < variants.len() && fields.len()
                == variants[tag as int].len() && fields_conform(
                fields,
                variants[tag as int],
                fields.len(),
            ),
            _ => false,
        },
    }
}

/// Whether each of the first `count` of `fields` is a value of the shape at
/// its position in `shapes`.
pub open spec fn fields_conform(fields: Seq<ValueView>, shapes: Seq<ShapeView>, count: nat) -> bool
    decreases fields, count,
{
    if count == 0 || count > fields.len() {
        true
    } else {
        fields_conform(fields, shapes, (count - 1) as nat) && conforms(
            fields[count - 1],
            shapes[count - 1],
        )
    }
}

impl AggregateCodec {
    /// Whether `value` is a value of this type.
    pub fn accepts(&self, value: &AggValue) -> (accepted: bool)
        ensures
            accepted == conforms(value@, self.shape@),
    {
        shape_accepts(&self.shape, value)
    }
}

fn shape_accepts(shape: &AggShape, value: &AggValue) -> (accepted: bool)
    ensures
        accepted == conforms(value@, shape@),
    decreases value,
{
    match value {
        AggValue::Leaf(_) => match shape {
            AggShape::Leaf => true,
            _ => false,
        },
        AggValue::Struct(fields) => match shape {
            AggShape::Struct(shapes) => shapes_accept(shapes, fields),
            _ => false,
        },
        AggValue::Union { tag, fields } => match shape {
            AggShape::Union(variants) => {
                if *tag < variants.len() {
                    assert(variants_view(variants@)[*tag as int] == shapes_view(
                        variants@[*tag as int]@,
                    ));
                    shapes_accept(&variants[*tag], fields)
                } else {
                    false
                }
            },
            _ => false,
        },
    }
}

fn shapes_accept(shapes: &Vec<AggShape>, fields: &Vec<AggValue>) -> (accepted: bool)
    ensures
        accepted == (fields@.len() == shapes@.len() && fields_conform(
            values_view(fields@),
            shapes_view(shapes@),
            fields@.len() as nat,
        )),
    decreases fields,
{
    if fields.len() != shapes.len() {
        return false;
    }
    let ghost field_views = values_view(fields@);
    let ghost shape_views = shapes_view(shapes@);
    let mut i: usize = 0;
    while i < fields.len()
        invariant
            i <= fields@.len(),
            fields@.len() == shapes@.len(),
            field_views == values_view(fields@),
            shape_views == shapes_view(shapes@),
            fields_conform(field_views, shape_views, i as nat),
        decreases fields@.len() - i,
    {
        assert(field_views[i as int] == fields@[i as int]@);
        assert(shape_views[i as int] == shapes@[i as int]@);
        if !shape_accepts(&shapes[i], &fields[i]) {
            proof {
                lemma_nonconforming_field(
                    field_views,
                    shape_views,
                    (i + 1) as nat,
                    fields@.len() as nat,
                );
            }
            return false;
        }
        i += 1;
    }
    true
}

/// A field that is no value of its shape makes the whole list nonconforming.
proof fn lemma_nonconforming_field(
    fields: Seq<ValueView>,
    shapes: Seq<ShapeView>,
    failing: nat,
    count: nat,
)
    requires
        failing <= count <= fields.len(),
        !fields_conform(fields, shapes, failing),
    ensures
        !fields_conform(fields, shapes, count),
    decreases count,
{
    if failing < count {
        lemma_nonconforming_field(fields, shapes, failing, (count - 1) as nat);
    }
}

impl AggShape {
    /// A copy of the shape.
    pub fn duplicate(&self) -> (copy: AggShape)
        ensures
            copy@ == self@,
        decreases self,
    {
        match self {
            AggShape::Leaf => AggShape::Leaf,
            AggShape::Struct(fields) => AggShape::Struct(duplicate_shapes(fields)),
            AggShape::Union(variants) => {
                let mut copies: Vec<Vec<AggShape>> = Vec::new();
                let mut k: usize = 0;
                assert(variants_view(copies@) =~= variants_view(variants@).take(0));
                while k < variants.len()
                    invariant
                        k <= variants@.len(),
                        decreases_to!(*self => *variants),
                        variants_view(copies@) == variants_view(variants@).take(k as int),
                    decreases variants@.len() - k,
                {
                    assert(decreases_to!(*variants => variants[k as int]));
                    let ghost before = copies@;
                    let copy = duplicate_shapes(&variants[k]);
                    copies.push(copy);
                    assert(variants_view(copies@) =~= variants_view(before).push(
                        shapes_view(copy@),
                    ));
                    assert(variants_view(copies@) =~= variants_view(variants@).take(k + 1));
                    k += 1;
                }
                assert(variants_view(variants@).take(variants@.len() as int) =~= variants_view(
                    variants@,
                ));
                AggShape::Union(copies)
            },
        }
    }
}

fn duplicate_shapes(shapes: &Vec<AggShape>) -> (copies: Vec<AggShape>)
    ensures
        shapes_view(copies@) == shapes_view(shapes@),
    decreases shapes,
{
    let mut copies: Vec<AggShape> = Vec::new();
    let mut i: usize = 0;
    assert(shapes_view(copies@) =~= shapes_view(shapes@).take(0));
    while i < shapes.len()
        invariant
            i <= shapes@.len(),
            shapes_view(copies@) == shapes_view(shapes@).take(i as int),
        decreases shapes@.len() - i,
    {
        let ghost before = copies@;
        let copy = shapes[i].duplicate();
        copies.push(copy);
        assert(shapes_view(copies@) =~= shapes_view(before).push(copy@));
        assert(shapes_view(copies@) =~= shapes_view(shapes@).take(i + 1));
        i += 1;
    }
    assert(shapes_view(shapes@).take(shapes@.len() as int) =~= shapes_view(shapes@));
    copies
}

} // verus!
