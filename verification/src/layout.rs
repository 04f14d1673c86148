//! The layout validator: the size and alignment that a list of fields
//! implies when the fields are placed in declared order, held against what the
//! host measured.
use vstd::prelude::*;
use vstd::arithmetic::div_mod::{lemma_fundamental_div_mod, lemma_mod_multiples_basic};
use crate::error::BuildError;

verus! {

/// A size and an alignment, both in bytes.
#[derive(Clone, Copy, Debug, PartialEq, Eq, Structural)]
pub struct Layout {
    pub size: usize,
    pub alignment: usize,
}

/// The bytes to skip from `offset` to reach a multiple of `alignment`.
pub open spec fn padding_to(offset: nat, alignment: nat) -> nat {
    if alignment == 0 || offset % alignment == 0 {
        0
    } else {
        (alignment - offset % alignment) as nat
    }
}

/// The next offset from `offset` on that is a multiple of `alignment`.
pub open spec fn align_up(offset: nat, alignment: nat) -> nat {
    offset + padding_to(offset, alignment)
}

/// The offset behind the first `count` fields, each placed in declared order
/// at the next multiple of its own alignment.
pub open spec fn end_of_fields(fields: Seq<Layout>, count: nat) -> nat
    decreases count,
{
    if count == 0 || count > fields.len() {
        0
    } else {
        align_up(
            end_of_fields(fields, (count - 1) as nat),
            fields[count - 1].alignment as nat,
        ) + fields[count - 1].size as nat
    }
}

/// The offset at which field `index` is placed.
pub open spec fn field_offset(fields: Seq<Layout>, index: nat) -> nat {
    align_up(end_of_fields(fields, index), fields[index as int].alignment as nat)
}

/// The largest alignment among the first `count` fields; 1 when there is none.
pub open spec fn max_alignment(fields: Seq<Layout>, count: nat) -> nat
    decreases count,
{
    if count == 0 || count > fields.len() {
        1
    } else {
        let before = max_alignment(fields, (count - 1) as nat);
        if fields[count - 1].alignment > before {
            fields[count - 1].alignment as nat
        } else {
            before
        }
    }
}

/// The alignment that the fields imply for the composite.
pub open spec fn implied_alignment(fields: Seq<Layout>) -> nat {
    max_alignment(fields, fields.len())
}

/// The size that the fields imply for the composite: the end of the last
/// field, rounded up to the composite's alignment.
pub open spec fn implied_size(fields: Seq<Layout>) -> nat {
    align_up(end_of_fields(fields, fields.len()), implied_alignment(fields))
}

/// Whether every field has an alignment of at least one byte.
pub open spec fn well_aligned(fields: Seq<Layout>) -> bool {
    forall|i: int| 0 <= i < fields.len() ==> (#[trigger] fields[i]).alignment >= 1
}

/// Whether the host layout `host` is the layout that `fields` imply.
pub open spec fn layout_matches(fields: Seq<Layout>, host: Layout) -> bool {
    &&& well_aligned(fields)
    &&& implied_size(fields) == host.size
    &&& implied_alignment(fields) == host.alignment
}

/// The sizes of the first `count` fields, added up.
pub open spec fn sizes_sum(fields: Seq<Layout>, count: nat) -> nat
    decreases count,
{
    if count == 0 || count > fields.len() {
        0
    } else {
        sizes_sum(fields, (count - 1) as nat) + fields[count - 1].size as nat
    }
}

/// The padding in front of each of the first `count` fields, added up.
pub open spec fn padding_sum(fields: Seq<Layout>, count: nat) -> nat
    decreases count,
{
    if count == 0 || count > fields.len() {
        0
    } else {
        padding_sum(fields, (count - 1) as nat) + padding_to(
            end_of_fields(fields, (count - 1) as nat),
            fields[count - 1].alignment as nat,
        )
    }
}

/// The padding behind the last field.
pub open spec fn tail_padding(fields: Seq<Layout>) -> nat {
    padding_to(end_of_fields(fields, fields.len()), implied_alignment(fields))
}

/// `align_up` gives the least multiple of the alignment that is not below the offset.
pub proof fn lemma_align_up(offset: nat, alignment: nat)
    requires
        alignment >= 1,
    ensures
        align_up(offset, alignment) % alignment == 0,
        offset <= align_up(offset, alignment) < offset + alignment,
        forall|multiple: nat|
            multiple >= offset && #[trigger] (multiple % alignment) == 0 ==> multiple >= align_up(
                offset,
                alignment,
            ),
{
    let a = alignment as int;
    let o = offset as int;
    let q = o / a;
    let r = o % a;
    lemma_fundamental_div_mod(o, a);
    assert(0 <= r < a);
    if r != 0 {
        assert(o + (a - r) == (q + 1) * a) by (nonlinear_arith)
            requires
                o == a * q + r,
        ;
        lemma_mod_multiples_basic(q + 1, a);
    }
    let up = align_up(offset, alignment) as int;
    assert forall|multiple: nat|
        multiple >= offset && #[trigger] (multiple % alignment) == 0 implies multiple >= align_up(
        offset,
        alignment,
    ) by {
        let m = multiple as int;
        let k = m / a;
        lemma_fundamental_div_mod(m, a);
        if r != 0 {
            assert(m >= up) by (nonlinear_arith)
                requires
                    m == a * k,
                    o == a * q + r,
                    up == (q + 1) * a,
                    0 < r < a,
                    m >= o,
                    a >= 1,
            ;
        }
    }
}

/// The end of the fields does not move back as fields are added.
proof fn lemma_end_grows(fields: Seq<Layout>, fewer: nat, more: nat)
    requires
        fewer <= more <= fields.len(),
    ensures
        end_of_fields(fields, fewer) <= end_of_fields(fields, more),
    decreases more,
{
    if fewer < more {
        lemma_end_grows(fields, fewer, (more - 1) as nat);
    }
}

/// The largest alignment is at least one and at least that of each field counted.
proof fn lemma_max_alignment_bounds(fields: Seq<Layout>, count: nat)
    requires
        count <= fields.len(),
    ensures
        max_alignment(fields, count) >= 1,
        forall|i: int| 0 <= i < count ==> (#[trigger] fields[i]).alignment <= max_alignment(fields, count),
        count == 0 || exists|i: int|
            0 <= i < count && (#[trigger] fields[i]).alignment == max_alignment(fields, count)
                || max_alignment(fields, count) == 1,
    decreases count,
{
    if count > 0 {
        lemma_max_alignment_bounds(fields, (count - 1) as nat);
        let before = max_alignment(fields, (count - 1) as nat);
        if fields[count - 1].alignment > before {
            assert(fields[count - 1].alignment == max_alignment(fields, count));
        } else if count - 1 > 0 {
            if before != 1 {
                let i = choose|i: int|
                    0 <= i < count - 1 && (#[trigger] fields[i]).alignment == before;
                assert(fields[i].alignment == max_alignment(fields, count));
            }
        }
    }
}

/// The end of the fields is their sizes and the padding in front of them.
proof fn lemma_end_is_sizes_and_padding(fields: Seq<Layout>, count: nat)
    requires
        count <= fields.len(),
    ensures
        end_of_fields(fields, count) == sizes_sum(fields, count) + padding_sum(fields, count),
    decreases count,
{
    if count > 0 {
        lemma_end_is_sizes_and_padding(fields, (count - 1) as nat);
    }
}

/// The layout invariant. For fields whose implied layout is the host's: the
/// host size is the sizes of the fields, the padding in front of each and the
/// padding behind the last, added up; the host alignment is the largest
/// alignment of a field (one byte for a composite without fields); every
/// field lies at a multiple of its own alignment, behind the field before it
/// and less than one alignment away from that field's end; and the host size
/// is a multiple of the host alignment.
pub proof fn validated_layout_accounts_for_size(fields: Seq<Layout>, host: Layout)
    requires
        layout_matches(fields, host),
    ensures
        host.size == sizes_sum(fields, fields.len()) + padding_sum(fields, fields.len())
            + tail_padding(fields),
        host.alignment == max_alignment(fields, fields.len()),
        host.alignment >= 1,
        forall|i: int| 0 <= i < fields.len() ==> (#[trigger] fields[i]).alignment <= host.alignment,
        fields.len() > 0 ==> exists|i: int|
            0 <= i < fields.len() && (#[trigger] fields[i]).alignment == host.alignment,
        fields.len() == 0 ==> host.alignment == 1 && host.size == 0,
        host.size % host.alignment == 0,
        tail_padding(fields) < host.alignment,
        forall|i: nat|
            i < fields.len() ==> {
                &&& #[trigger] field_offset(fields, i) % (fields[i as int].alignment as nat) == 0
                &&& end_of_fields(fields, i) <= field_offset(fields, i) < end_of_fields(fields, i)
                    + fields[i as int].alignment
                &&& field_offset(fields, i) + fields[i as int].size == end_of_fields(fields, i + 1)
                &&& field_offset(fields, i) + fields[i as int].size <= host.size
            },
{
    let count = fields.len();
    lemma_end_is_sizes_and_padding(fields, count);
    lemma_max_alignment_bounds(fields, count);
    lemma_align_up(end_of_fields(fields, count), implied_alignment(fields));
    if count > 0 {
        if max_alignment(fields, count) == 1 {
            assert(fields[0].alignment >= 1);
            assert(fields[0].alignment == 1);
        }
    }
    assert forall|i: nat| i < fields.len() implies {
        &&& #[trigger] field_offset(fields, i) % (fields[i as int].alignment as nat) == 0
        &&& end_of_fields(fields, i) <= field_offset(fields, i) < end_of_fields(fields, i)
            + fields[i as int].alignment
        &&& field_offset(fields, i) + fields[i as int].size == end_of_fields(fields, i + 1)
        &&& field_offset(fields, i) + fields[i as int].size <= host.size
    } by {
        assert(fields[i as int].alignment >= 1);
        lemma_align_up(end_of_fields(fields, i), fields[i as int].alignment as nat);
        lemma_end_grows(fields, i + 1, count);
    }
}

/// `align_up` where the result fits the machine word.
fn align_up_checked(offset: usize, alignment: usize) -> (aligned: Option<usize>)
    requires
        alignment >= 1,
    ensures
        match aligned {
            Some(a) => a == align_up(offset as nat, alignment as nat),
            None => align_up(offset as nat, alignment as nat) > usize::MAX,
        },
{
    let rest = offset % alignment;
    if rest == 0 {
        Some(offset)
    } else {
        let padding = alignment - rest;
        if padding > usize::MAX - offset {
            None
        } else {
            Some(offset + padding)
        }
    }
}

/// The layout that `fields` imply, placed in declared order: `None` when a
/// field has no alignment or the implied size does not fit the machine word.
pub fn implied_layout(fields: &Vec<Layout>) -> (implied: Option<Layout>)
    ensures
        match implied {
            Some(layout) => well_aligned(fields@) && layout.size == implied_size(fields@)
                && layout.alignment == implied_alignment(fields@),
            None => !well_aligned(fields@) || implied_size(fields@) > usize::MAX,
        },
{
    let mut end: usize = 0;
    let mut alignment: usize = 1;
    let mut i: usize = 0;
    while i < fields.len()
        invariant
            i <= fields@.len(),
            end == end_of_fields(fields@, i as nat),
            alignment == max_alignment(fields@, i as nat),
            forall|k: int| 0 <= k < i ==> (#[trigger] fields@[k]).alignment >= 1,
        decreases fields@.len() - i,
    {
        let field = fields[i];
        if field.alignment == 0 {
            return None;
        }
        proof {
            lemma_end_grows(fields@, (i + 1) as nat, fields@.len());
        }
        match align_up_checked(end, field.alignment) {
            None => {
                return None;
            },
            Some(offset) => {
                if field.size > usize::MAX - offset {
                    return None;
                }
                end = offset + field.size;
                if field.alignment > alignment {
                    alignment = field.alignment;
                }
            },
        }
        i += 1;
    }
    match align_up_checked(end, alignment) {
        None => None,
        Some(size) => Some(Layout { size, alignment }),
    }
}

/// Holds the host-measured layout of a composite against the layout that
/// its fields imply, and fails with `LayoutMismatch` unless they are the same.
pub fn validate_layout(fields: &Vec<Layout>, host: Layout) -> (verdict: Result<(), BuildError>)
    ensures
        verdict is Ok <==> layout_matches(fields@, host),
        verdict is Err ==> verdict == Err::<(), BuildError>(BuildError::LayoutMismatch),
{
    match implied_layout(fields) {
        Some(implied) => {
            if implied.size == host.size && implied.alignment == host.alignment {
                Ok(())
            } else {
                Err(BuildError::LayoutMismatch)
            }
        },
        None => Err(BuildError::LayoutMismatch),
    }
}

} // verus!
