//! What holds of the kernel argument codec whatever the value.
use vstd::prelude::*;
use crate::kernel_arg::{
    accepts, accepts_fields, encoded_args, encoded_args_of_fields, param_count,
    param_count_of_fields, parameters, parameters_of_fields, placeholders_from, placeholders_in,
    placeholders_in_fields, ArgShapeView, ArgValueView, ParamView,
};

verus! {

proof fn lemma_arguments_match(shape: ArgShapeView, value: ArgValueView, base: nat)
    requires
        accepts(shape, value),
    ensures
        encoded_args(shape, value).len() == param_count(shape),
        placeholders_in(parameters(shape, base)) == placeholders_from(base, param_count(shape)),
    decreases shape, 0nat,
{
    match shape {
        ArgShapeView::Resource => {
            assert(placeholders_in(parameters(shape, base)) =~= placeholders_from(base, 1));
        },
        ArgShapeView::Composite(slots) => {
            let fields = value->Composite_0;
            lemma_field_arguments_match(slots, fields, slots.len(), base);
        },
    }
}

proof fn lemma_field_arguments_match(
    slots: Seq<Option<ArgShapeView>>,
    fields: Seq<ArgValueView>,
    count: nat,
    base: nat,
)
    requires
        count <= slots.len(),
        fields.len() == slots.len(),
        accepts_fields(slots, fields, count),
    ensures
        encoded_args_of_fields(slots, fields, count).len() == param_count_of_fields(slots, count),
        ({
            let params = parameters_of_fields(slots, count, base);
            placeholders_in_fields(params, params.len()) == placeholders_from(
                base,
                param_count_of_fields(slots, count),
            )
        }),
    decreases slots, count,
{
    let params = parameters_of_fields(slots, count, base);
    if count == 0 {
        assert(placeholders_in_fields(params, params.len()) =~= placeholders_from(base, 0));
    } else {
        let before = (count - 1) as nat;
        let earlier = parameters_of_fields(slots, before, base);
        let defined = param_count_of_fields(slots, before);
        lemma_field_arguments_match(slots, fields, before, base);
        match slots[count - 1] {
            Some(shape) => {
                lemma_arguments_match(shape, fields[count - 1], base + defined);
                assert(params == earlier.push(parameters(shape, base + defined)));
                lemma_placeholders_of_prefix(params, earlier.len());
                assert(params.take(earlier.len() as int) =~= earlier);
                lemma_placeholders_of_prefix(earlier, earlier.len());
                assert(earlier.take(earlier.len() as int) =~= earlier);
                assert(placeholders_in_fields(params, params.len()) =~= placeholders_from(
                    base,
                    defined + param_count(shape),
                ));
            },
            None => {},
        }
    }
}

/// The placeholders in the first fields depend on those fields only.
proof fn lemma_placeholders_of_prefix(fields: Seq<ParamView>, count: nat)
    requires
        count <= fields.len(),
    ensures
        placeholders_in_fields(fields, count) == placeholders_in_fields(
            fields.take(count as int),
            count,
        ),
    decreases count,
{
    if count > 0 {
        let prefix = fields.take(count as int);
        lemma_placeholders_of_prefix(fields, (count - 1) as nat);
        lemma_placeholders_of_prefix(prefix, (count - 1) as nat);
        assert(prefix.take(count - 1) =~= fields.take(count - 1));
        assert(prefix[count - 1] == fields[count - 1]);
    }
}

/// Encoding and parameter definition are dual. For a value of shape
/// `shape`, encoding appends exactly as many arguments as the parameter of
/// the shape has placeholders, and the placeholders stand in the parameter in
/// the order of the argument list: the first one defined stands first. An
/// excluded field contributes to neither side.
pub proof fn arguments_match_parameters(shape: ArgShapeView, value: ArgValueView, base: nat)
    requires
        accepts(shape, value),
    ensures
        encoded_args(shape, value).len() == param_count(shape),
        placeholders_in(parameters(shape, base)) == placeholders_from(base, param_count(shape)),
{
    lemma_arguments_match(shape, value, base);
}

} // verus!
