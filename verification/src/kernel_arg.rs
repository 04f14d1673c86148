//! The kernel argument codec: how a host composite is bound as an input of
//! a kernel. It knows nothing of the node graph of a trace.
use vstd::prelude::*;

pub mod laws;
pub mod table;

pub use self::table::{
    ArgTableView, KernelArgEntry, KernelArgField, KernelArgProxy, KernelArgTable,
};

verus! {

/// The shape of a kernel argument type.
#[derive(Debug, PartialEq, Eq)]
pub enum ArgShape {
    /// A terminal: one device resource, bound as one argument.
    Resource,
    /// A composite: for each declared field, in declared order, the field's
    /// shape, or `None` where the field is excluded from marshaling.
    Composite(Vec<Option<ArgShape>>),
}

/// A host value that is bound as a kernel argument.
#[derive(Debug, PartialEq, Eq)]
pub enum ArgValue {
    /// A device resource, by its handle.
    Resource(u64),
    /// A composite: the values of all its declared fields, in declared order.
    Composite(Vec<ArgValue>),
    /// Data that stays on the host.
    HostOnly,
}

/// The placeholder of one argument on the side of the kernel: the position
/// of the argument in the argument list.
#[derive(Clone, Copy, Debug, PartialEq, Eq, Structural)]
pub struct Placeholder {
    pub index: usize,
}

/// The parameter that stands for an argument inside the kernel.
#[derive(Debug, PartialEq, Eq)]
pub enum ParamValue {
    /// The placeholder of a terminal.
    Placeholder(Placeholder),
    /// A composite: the parameters of its marshaled fields, in declared order.
    Composite(Vec<ParamValue>),
}

/// The mathematical form of an [`ArgShape`].
pub enum ArgShapeView {
    Resource,
    Composite(Seq<Option<ArgShapeView>>),
}

/// The mathematical form of an [`ArgValue`].
pub enum ArgValueView {
    Resource(u64),
    Composite(Seq<ArgValueView>),
    HostOnly,
}

/// The mathematical form of a [`ParamValue`].
pub enum ParamView {
    Placeholder(Placeholder),
    Composite(Seq<ParamView>),
}

/// The mathematical form of a shape.
pub open spec fn arg_shape_view(shape: ArgShape) -> ArgShapeView
    decreases shape,
{
    match shape {
        ArgShape::Resource => ArgShapeView::Resource,
        ArgShape::Composite(slots) => ArgShapeView::Composite(slots_view(slots@)),
    }
}

/// The mathematical forms of the fields of a composite shape, one for one.
pub open spec fn slots_view(slots: Seq<Option<ArgShape>>) -> Seq<Option<ArgShapeView>>
    decreases slots,
{
    Seq::new(
        slots.len(),
        |i: int|
            if 0 <= i < slots.len() {
                match slots[i] {
                    Some(shape) => Some(arg_shape_view(shape)),
                    None => None,
                }
            } else {
                None
            },
    )
}

/// The mathematical form of a value.
pub open spec fn arg_value_view(value: ArgValue) -> ArgValueView
    decreases value,
{
    match value {
        ArgValue::Resource(handle) => ArgValueView::Resource(handle),
        ArgValue::Composite(fields) => ArgValueView::Composite(arg_values_view(fields@)),
        ArgValue::HostOnly => ArgValueView::HostOnly,
    }
}

/// The mathematical forms of a list of values, one for one.
pub open spec fn arg_values_view(values: Seq<ArgValue>) -> Seq<ArgValueView>
    decreases values,
{
    Seq::new(
        values.len(),
        |i: int|
            if 0 <= i < values.len() {
                arg_value_view(values[i])
            } else {
                ArgValueView::HostOnly
            },
    )
}

/// The mathematical form of a parameter.
pub open spec fn param_view(param: ParamValue) -> ParamView
    decreases param,
{
    match param {
        ParamValue::Placeholder(placeholder) => ParamView::Placeholder(placeholder),
        ParamValue::Composite(fields) => ParamView::Composite(params_view(fields@)),
    }
}

/// The mathematical forms of a list of parameters, one for one.
pub open spec fn params_view(params: Seq<ParamValue>) -> Seq<ParamView>
    decreases params,
{
    Seq::new(
        params.len(),
        |i: int|
            if 0 <= i < params.len() {
                param_view(params[i])
            } else {
                ParamView::Placeholder(Placeholder { index: 0 })
            },
    )
}

impl View for ArgShape {
    type V = ArgShapeView;

    open spec fn view(&self) -> ArgShapeView {
        arg_shape_view(*self)
    }
}

impl View for ArgValue {
    type V = ArgValueView;

    open spec fn view(&self) -> ArgValueView {
        arg_value_view(*self)
    }
}

impl View for ParamValue {
    type V = ParamView;

    open spec fn view(&self) -> ParamView {
        param_view(*self)
    }
}

/// Whether `value` is a value of shape `shape`: a resource for a terminal; for
/// a composite, a value for every declared field, of the field's shape where
/// the field is marshaled and of any kind where it is excluded.
pub open spec fn accepts(shape: ArgShapeView, value: ArgValueView) -> bool
    decreases shape, 0nat,
{
    match shape {
        ArgShapeView::Resource => value is Resource,
        ArgShapeView::Composite(slots) => match value {
            ArgValueView::Composite(fields) => fields.len() == slots.len() && accepts_fields(
                slots,
                fields,
                slots.len(),
            ),
            _ => false,
        },
    }
}

/// Whether each of the first `count` of `fields` that is marshaled is a value
/// of the shape at its position in `slots`.
pub open spec fn accepts_fields(
    slots: Seq<Option<ArgShapeView>>,
    fields: Seq<ArgValueView>,
    count: nat,
) -> bool
    decreases slots, count,
{
    if count == 0 || count > slots.len() {
        true
    } else {
        accepts_fields(slots, fields, (count - 1) as nat) && match slots[count - 1] {
            Some(shape) => accepts(shape, fields[count - 1]),
            None => true,
        }
    }
}

/// The arguments that encoding `value` as a `shape` appends: a resource gives
/// its handle; a composite gives the arguments of its marshaled fields, in
/// declared order, nested composites inline; an excluded field gives nothing.
/// Where `value` is no value of the shape, what is not there gives nothing.
pub open spec fn encoded_args(shape: ArgShapeView, value: ArgValueView) -> Seq<u64>
    decreases shape, 0nat,
{
    match shape {
        ArgShapeView::Resource => match value {
            ArgValueView::Resource(handle) => seq![handle],
            _ => Seq::empty(),
        },
        ArgShapeView::Composite(slots) => match value {
            ArgValueView::Composite(fields) => encoded_args_of_fields(slots, fields, slots.len()),
            _ => Seq::empty(),
        },
    }
}

/// The arguments that encoding the first `count` fields appends.
pub open spec fn encoded_args_of_fields(
    slots: Seq<Option<ArgShapeView>>,
    fields: Seq<ArgValueView>,
    count: nat,
) -> Seq<u64>
    decreases slots, count,
{
    if count == 0 || count > slots.len() {
        Seq::empty()
    } else {
        encoded_args_of_fields(slots, fields, (count - 1) as nat) + match slots[count - 1] {
            Some(shape) => if count - 1 < fields.len() {
                encoded_args(shape, fields[count - 1])
            } else {
                Seq::empty()
            },
            None => Seq::empty(),
        }
    }
}

/// The number of arguments that a value of shape `shape` is bound as.
pub open spec fn param_count(shape: ArgShapeView) -> nat
    decreases shape, 0nat,
{
    match shape {
        ArgShapeView::Resource => 1,
        ArgShapeView::Composite(slots) => param_count_of_fields(slots, slots.len()),
    }
}

/// The number of arguments that the first `count` fields are bound as.
pub open spec fn param_count_of_fields(slots: Seq<Option<ArgShapeView>>, count: nat) -> nat
    decreases slots, count,
{
    if count == 0 || count > slots.len() {
        0
    } else {
        param_count_of_fields(slots, (count - 1) as nat) + match slots[count - 1] {
            Some(shape) => param_count(shape),
            None => 0,
        }
    }
}

/// The parameter of shape `shape` when `base` placeholders are defined
/// already: a terminal is the next placeholder; a composite is the
/// parameters of its marshaled fields, in declared order.
pub open spec fn parameters(shape: ArgShapeView, base: nat) -> ParamView
    decreases shape, 0nat,
{
    match shape {
        ArgShapeView::Resource => ParamView::Placeholder(Placeholder { index: base as usize }),
        ArgShapeView::Composite(slots) => ParamView::Composite(
            parameters_of_fields(slots, slots.len(), base),
        ),
    }
}

/// The parameters of the marshaled ones among the first `count` fields.
pub open spec fn parameters_of_fields(slots: Seq<Option<ArgShapeView>>, count: nat, base: nat) -> Seq<
    ParamView,
>
    decreases slots, count,
{
    if count == 0 || count > slots.len() {
        Seq::empty()
    } else {
        let before = parameters_of_fields(slots, (count - 1) as nat, base);
        match slots[count - 1] {
            Some(shape) => before.push(
                parameters(shape, base + param_count_of_fields(slots, (count - 1) as nat)),
            ),
            None => before,
        }
    }
}

/// The placeholders from position `base` on, `count` of them.
pub open spec fn placeholders_from(base: nat, count: nat) -> Seq<Placeholder> {
    Seq::new(count, |k: int| Placeholder { index: (base + k) as usize })
}

/// The placeholders in `param`, in the order in which they stand.
pub open spec fn placeholders_in(param: ParamView) -> Seq<Placeholder>
    decreases param, 0nat,
{
    match param {
        ParamView::Placeholder(placeholder) => seq![placeholder],
        ParamView::Composite(fields) => placeholders_in_fields(fields, fields.len()),
    }
}

/// The placeholders in the first `count` of `fields`.
pub open spec fn placeholders_in_fields(fields: Seq<ParamView>, count: nat) -> Seq<Placeholder>
    decreases fields, count,
{
    if count == 0 || count > fields.len() {
        Seq::empty()
    } else {
        placeholders_in_fields(fields, (count - 1) as nat) + placeholders_in(fields[count - 1])
    }
}

/// Collects the arguments of one kernel call, in the order in which the
/// kernel's parameters were defined.
pub struct KernelArgEncoder {
    args: Vec<u64>,
}

impl View for KernelArgEncoder {
    type V = Seq<u64>;

    closed spec fn view(&self) -> Seq<u64> {
        self.args@
    }
}

impl KernelArgEncoder {
    /// An encoder that holds no argument yet.
    pub fn new() -> (encoder: KernelArgEncoder)
        ensures
            encoder@ == Seq::<u64>::empty(),
    {
        KernelArgEncoder { args: Vec::new() }
    }

    /// Appends one resource.
    pub fn resource(&mut self, handle: u64)
        ensures
            final(self)@ == old(self)@.push(handle),
    {
        self.args.push(handle);
    }

    /// The arguments encoded so far.
    pub fn args(&self) -> (args: &Vec<u64>)
        ensures
            args@ == self@,
    {
        &self.args
    }
}

/// Defines the parameters of one kernel, one placeholder after the other.
pub struct KernelBuilder {
    placeholders: Vec<Placeholder>,
}

impl View for KernelBuilder {
    type V = Seq<Placeholder>;

    closed spec fn view(&self) -> Seq<Placeholder> {
        self.placeholders@
    }
}

impl KernelBuilder {
    /// A builder that has defined no parameter yet.
    pub fn new() -> (builder: KernelBuilder)
        ensures
            builder@ == Seq::<Placeholder>::empty(),
    {
        KernelBuilder { placeholders: Vec::new() }
    }

    /// Defines the next placeholder.
    pub fn placeholder(&mut self) -> (placeholder: Placeholder)
        ensures
            placeholder.index == old(self)@.len(),
            final(self)@ == old(self)@.push(placeholder),
    {
        let placeholder = Placeholder { index: self.placeholders.len() };
        self.placeholders.push(placeholder);
        placeholder
    }

    /// The placeholders defined so far.
    pub fn placeholders(&self) -> (placeholders: &Vec<Placeholder>)
        ensures
            placeholders@ == self@,
    {
        &self.placeholders
    }
}

impl ArgShape {
    /// Whether `value` is a value of this shape.
    pub fn check(&self, value: &ArgValue) -> (accepted: bool)
        ensures
            accepted == accepts(self@, value@),
        decreases self,
    {
        match self {
            ArgShape::Resource => match value {
                ArgValue::Resource(_) => true,
                _ => false,
            },
            ArgShape::Composite(slots) => match value {
                ArgValue::Composite(fields) => {
                    if fields.len() != slots.len() {
                        return false;
                    }
                    let ghost slot_views = slots_view(slots@);
                    let ghost field_views = arg_values_view(fields@);
                    let mut i: usize = 0;
                    while i < slots.len()
                        invariant
                            i <= slots@.len(),
                            fields@.len() == slots@.len(),
                            decreases_to!(*self => *slots),
                            self@ == ArgShapeView::Composite(slot_views),
                            value@ == ArgValueView::Composite(field_views),
                            slot_views == slots_view(slots@),
                            field_views == arg_values_view(fields@),
                            accepts_fields(slot_views, field_views, i as nat),
                        decreases slots@.len() - i,
                    {
                        match &slots[i] {
                            Some(shape) => {
                                assert(slot_views[i as int] == Some(shape@));
                                assert(decreases_to!(*slots => slots[i as int]));
                            assert(decreases_to!(*slots => slots[i as int]));
                                assert(field_views[i as int] == fields@[i as int]@);
                                if !shape.check(&fields[i]) {
                                    proof {
                                        lemma_rejected_field(
                                            slot_views,
                                            field_views,
                                            (i + 1) as nat,
                                            slots@.len() as nat,
                                        );
                                    }
                                    return false;
                                }
                            },
                            None => {
                                assert(slot_views[i as int] is None);
                            },
                        }
                        i += 1;
                    }
                    true
                },
                _ => false,
            },
        }
    }

    /// Encodes `value` as an argument of this shape: appends, for each
    /// marshaled field in declared order, the field's own encoding.
    pub fn encode(&self, value: &ArgValue, encoder: &mut KernelArgEncoder)
        ensures
            final(encoder)@ == old(encoder)@ + encoded_args(self@, value@),
        decreases self,
    {
        match self {
            ArgShape::Resource => match value {
                ArgValue::Resource(handle) => {
                    encoder.resource(*handle);
                    assert(encoder@ =~= old(encoder)@ + encoded_args(self@, value@));
                },
                _ => {
                    assert(encoder@ =~= old(encoder)@ + encoded_args(self@, value@));
                },
            },
            ArgShape::Composite(slots) => match value {
                ArgValue::Composite(fields) => {
                    let ghost slot_views = slots_view(slots@);
                    let ghost field_views = arg_values_view(fields@);
                    let mut i: usize = 0;
                    assert(encoder@ =~= old(encoder)@ + encoded_args_of_fields(
                        slot_views,
                        field_views,
                        0,
                    ));
                    while i < slots.len()
                        invariant
                            i <= slots@.len(),
                            decreases_to!(*self => *slots),
                            slot_views == slots_view(slots@),
                            field_views == arg_values_view(fields@),
                            encoder@ == old(encoder)@ + encoded_args_of_fields(
                                slot_views,
                                field_views,
                                i as nat,
                            ),
                        decreases slots@.len() - i,
                    {
                        match &slots[i] {
                            Some(shape) => {
                                assert(slot_views[i as int] == Some(shape@));
                                assert(decreases_to!(*slots => slots[i as int]));
                            assert(decreases_to!(*slots => slots[i as int]));
                                if i < fields.len() {
                                    assert(field_views[i as int] == fields@[i as int]@);
                                    shape.encode(&fields[i], encoder);
                                }
                            },
                            None => {
                                assert(slot_views[i as int] is None);
                            },
                        }
                        assert(encoder@ =~= old(encoder)@ + encoded_args_of_fields(
                            slot_views,
                            field_views,
                            (i + 1) as nat,
                        ));
                        i += 1;
                    }
                },
                _ => {
                    assert(encoder@ =~= old(encoder)@ + encoded_args(self@, value@));
                },
            },
        }
    }

    /// Defines the parameter of this shape: one placeholder for each
    /// terminal among the marshaled fields, in declared order, assembled into
    /// a parameter of the shape of the composite.
    pub fn def_param(&self, builder: &mut KernelBuilder) -> (param: ParamValue)
        ensures
            param@ == parameters(self@, old(builder)@.len()),
            final(builder)@ == old(builder)@ + placeholders_from(
                old(builder)@.len(),
                param_count(self@),
            ),
        decreases self,
    {
        match self {
            ArgShape::Resource => {
                let placeholder = builder.placeholder();
                assert(builder@ =~= old(builder)@ + placeholders_from(old(builder)@.len(), 1));
                ParamValue::Placeholder(placeholder)
            },
            ArgShape::Composite(slots) => {
                let ghost slot_views = slots_view(slots@);
                let ghost base = old(builder)@.len();
                let mut params: Vec<ParamValue> = Vec::new();
                let mut i: usize = 0;
                assert(params_view(params@) =~= parameters_of_fields(slot_views, 0, base));
                assert(builder@ =~= old(builder)@ + placeholders_from(base, 0));
                while i < slots.len()
                    invariant
                        i <= slots@.len(),
                        decreases_to!(*self => *slots),
                        slot_views == slots_view(slots@),
                        base == old(builder)@.len(),
                        params_view(params@) == parameters_of_fields(slot_views, i as nat, base),
                        builder@ == old(builder)@ + placeholders_from(
                            base,
                            param_count_of_fields(slot_views, i as nat),
                        ),
                    decreases slots@.len() - i,
                {
                    match &slots[i] {
                        Some(shape) => {
                            assert(slot_views[i as int] == Some(shape@));
                            assert(decreases_to!(*slots => slots[i as int]));
                            let ghost before = params@;
                            let ghost defined = param_count_of_fields(slot_views, i as nat);
                            let param = shape.def_param(builder);
                            params.push(param);
                            assert(params_view(params@) =~= params_view(before).push(param@));
                            assert(builder@ =~= old(builder)@ + placeholders_from(
                                base,
                                defined + param_count(shape@),
                            ));
                        },
                        None => {
                            assert(slot_views[i as int] is None);
                        },
                    }
                    i += 1;
                }
                ParamValue::Composite(params)
            },
        }
    }
}

/// A field that is no value of its shape makes the whole list rejected.
proof fn lemma_rejected_field(
    slots: Seq<Option<ArgShapeView>>,
    fields: Seq<ArgValueView>,
    failing: nat,
    count: nat,
)
    requires
        failing <= count <= slots.len(),
        !accepts_fields(slots, fields, failing),
    ensures
        !accepts_fields(slots, fields, count),
    decreases count,
{
    if failing < count {
        lemma_rejected_field(slots, fields, failing, (count - 1) as nat);
    }
}

impl ArgShape {
    /// A copy of the shape.
    pub fn duplicate(&self) -> (copy: ArgShape)
        ensures
            copy@ == self@,
        decreases self,
    {
        match self {
            ArgShape::Resource => ArgShape::Resource,
            ArgShape::Composite(slots) => {
                let mut copies: Vec<Option<ArgShape>> = Vec::new();
                let mut i: usize = 0;
                assert(slots_view(copies@) =~= slots_view(slots@).take(0));
                while i < slots.len()
                    invariant
                        i <= slots@.len(),
                        decreases_to!(*self => *slots),
                        slots_view(copies@) == slots_view(slots@).take(i as int),
                    decreases slots@.len() - i,
                {
                    let ghost before = copies@;
                    assert(decreases_to!(*slots => slots[i as int]));
                    let copy = match &slots[i] {
                        Some(shape) => Some(shape.duplicate()),
                        None => None,
                    };
                    copies.push(copy);
                    assert(slots_view(copies@) =~= slots_view(before).push(
                        slots_view(slots@)[i as int],
                    ));
                    assert(slots_view(copies@) =~= slots_view(slots@).take(i + 1));
                    i += 1;
                }
                assert(slots_view(slots@).take(slots@.len() as int) =~= slots_view(slots@));
                ArgShape::Composite(copies)
            },
        }
    }
}

} // verus!
