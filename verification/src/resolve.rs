//! The layout resolver.
//!
//! The fields are taken in declaration order. Each must carry exactly one
//! well-formed offset, and no field may start before the end of the field
//! declared before it, as far as that end is known: an offset below the
//! predecessor's is always a fault; an offset equal to it, or inside it, is a
//! fault where the predecessor's size is known and reaches that far. Where
//! the predecessor's size is deferred the gap is left as a difference for the
//! host compiler, which refuses a negative one.

use vstd::prelude::*;
use crate::model::{
    plan_outcome, DeclaredOffset, FieldDescriptor, GapSpec, LayoutError, LayoutPlan,
    LayoutPlanModel, PlacedField, TypeSize,
};

verus! {

/// Whether a field declared at `offset` starts before the end of `prev`, the
/// field declared just before it, as far as that end is known: below its
/// offset, or inside the bytes of its statically known size. A predecessor of
/// deferred or zero size admits a field at its own offset.
pub open spec fn conflicts(prev: FieldDescriptor, offset: usize) -> bool {
    let start = prev.offset.value();
    offset < start || match prev.size {
        TypeSize::Known(size) => offset - start < size,
        TypeSize::Deferred => false,
    }
}

/// The gap that puts a field at `offset` behind the field declared before it:
/// the whole offset for the first field; else the distance between the two
/// offsets less the size of the predecessor's type, computed where that size
/// is known and left to the host compiler where it is deferred.
pub open spec fn gap_behind(previous: Option<FieldDescriptor>, offset: usize) -> GapSpec {
    match previous {
        None => GapSpec::Known(offset),
        Some(prev) => {
            let start = prev.offset.value();
            match prev.size {
                TypeSize::Known(size) => GapSpec::Known((offset - start - size) as usize),
                TypeSize::Deferred => GapSpec::Deferred { span: (offset - start) as usize },
            }
        },
    }
}

/// The place before `index`.
pub open spec fn place_before(index: usize) -> usize {
    if index == 0 {
        0
    } else {
        (index - 1) as usize
    }
}

/// What placing field `index` behind the field declared before it gives: the
/// fault of its offset declaration, the fault of an offset that conflicts
/// with the predecessor, or the field with its gap.
pub open spec fn placement(
    previous: Option<FieldDescriptor>,
    field: FieldDescriptor,
    index: usize,
) -> Result<PlacedField, LayoutError> {
    match field.offset {
        DeclaredOffset::Missing => Err(LayoutError::MissingOffset { field: index }),
        DeclaredOffset::Duplicate => Err(LayoutError::DuplicateOffset { field: index }),
        DeclaredOffset::Malformed => Err(LayoutError::MalformedOffset { field: index }),
        DeclaredOffset::At(offset) => if previous is Some && conflicts(previous->Some_0, offset) {
            Err(LayoutError::OffsetOrdering { field: index, predecessor: place_before(index) })
        } else {
            Ok(PlacedField { gap: gap_behind(previous, offset), offset, size: field.size })
        },
    }
}

/// The field declared before field `i`.
pub open spec fn predecessor(fields: Seq<FieldDescriptor>, i: int) -> Option<FieldDescriptor> {
    if i > 0 {
        Some(fields[i - 1])
    } else {
        None
    }
}

/// The fault of field `i`, judged against its own declaration and that of the
/// field before it.
pub open spec fn fault_at(fields: Seq<FieldDescriptor>, i: int) -> Option<LayoutError> {
    match placement(predecessor(fields, i), fields[i], i as usize) {
        Err(e) => Some(e),
        Ok(_) => None,
    }
}

/// The fault of the earliest faulty field among the first `n`.
pub open spec fn first_fault(fields: Seq<FieldDescriptor>, n: nat) -> Option<LayoutError>
    decreases n,
{
    if n == 0 {
        None
    } else {
        match first_fault(fields, (n - 1) as nat) {
            Some(e) => Some(e),
            None => fault_at(fields, n - 1),
        }
    }
}

/// Field `i` as the plan holds it.
pub open spec fn placed_at(fields: Seq<FieldDescriptor>, i: int) -> PlacedField {
    PlacedField {
        gap: gap_behind(predecessor(fields, i), fields[i].offset.value()),
        offset: fields[i].offset.value(),
        size: fields[i].size,
    }
}

/// The fields of the plan, in declaration order.
pub open spec fn placed_fields(fields: Seq<FieldDescriptor>) -> Seq<PlacedField> {
    Seq::new(fields.len(), |i: int| placed_at(fields, i))
}

/// The gap that closes a record of the desired total size behind its last
/// field: none where no size is desired; the whole size where there is no
/// field; else the room behind the last field's offset less the size of its
/// type. A size below that offset, or below the end of a type of known size,
/// is a fault.
pub open spec fn closing_gap(last: Option<FieldDescriptor>, desired: Option<usize>) -> Result<
    Option<GapSpec>,
    LayoutError,
> {
    match desired {
        None => Ok(None),
        Some(total) => match last {
            None => Ok(Some(GapSpec::Known(total))),
            Some(field) => if conflicts(field, total) {
                Err(
                    LayoutError::SizeTooSmall {
                        desired: total,
                        last_offset: field.offset.value(),
                    },
                )
            } else {
                Ok(Some(gap_behind(last, total)))
            },
        },
    }
}

/// The gap that closes the record, or the reason why the desired size cannot
/// be had.
pub open spec fn trailing_gap(fields: Seq<FieldDescriptor>, desired: Option<usize>) -> Result<
    Option<GapSpec>,
    LayoutError,
> {
    closing_gap(predecessor(fields, fields.len() as int), desired)
}

/// What resolving `fields` with the desired total size gives: the fault of the
/// earliest faulty field; else the reason why the desired size cannot be had;
/// else the plan.
pub open spec fn resolve_spec(fields: Seq<FieldDescriptor>, desired: Option<usize>) -> Result<
    LayoutPlanModel,
    LayoutError,
> {
    match first_fault(fields, fields.len()) {
        Some(e) => Err(e),
        None => match trailing_gap(fields, desired) {
            Err(e) => Err(e),
            Ok(trailing) => Ok(LayoutPlanModel { fields: placed_fields(fields), trailing }),
        },
    }
}

/// A fault found among the first `i` fields is the fault of every longer
/// prefix.
pub proof fn lemma_first_fault_stays(fields: Seq<FieldDescriptor>, i: nat, n: nat)
    requires
        i <= n,
        first_fault(fields, i) is Some,
    ensures
        first_fault(fields, n) == first_fault(fields, i),
    decreases n,
{
    if i < n {
        lemma_first_fault_stays(fields, i, (n - 1) as nat);
    }
}

/// The gap behind `previous` for a field, or the end of the record, at
/// `offset`; `None` where the offset conflicts with the predecessor.
fn gap_to(previous: Option<FieldDescriptor>, offset: usize) -> (r: Option<GapSpec>)
    ensures
        r is None <==> previous is Some && conflicts(previous->Some_0, offset),
        r matches Some(gap) ==> gap == gap_behind(previous, offset),
{
    match previous {
        None => Some(GapSpec::Known(offset)),
        Some(prev) => {
            let start = match prev.offset {
                DeclaredOffset::At(start) => start,
                _ => 0,
            };
            if offset < start {
                return None;
            }
            let span = offset - start;
            match prev.size {
                TypeSize::Known(size) => {
                    if span < size {
                        None
                    } else {
                        Some(GapSpec::Known(span - size))
                    }
                },
                TypeSize::Deferred => Some(GapSpec::Deferred { span }),
            }
        },
    }
}

/// Places one field behind the field declared before it: one step of
/// resolving. `previous` is the predecessor, already placed, and `index` the
/// field's place in the declaration.
pub fn place_field(previous: Option<FieldDescriptor>, field: FieldDescriptor, index: usize) -> (r:
    Result<PlacedField, LayoutError>)
    ensures
        r == placement(previous, field, index),
{
    let offset = match field.offset {
        DeclaredOffset::Missing => {
            return Err(LayoutError::MissingOffset { field: index });
        },
        DeclaredOffset::Duplicate => {
            return Err(LayoutError::DuplicateOffset { field: index });
        },
        DeclaredOffset::Malformed => {
            return Err(LayoutError::MalformedOffset { field: index });
        },
        DeclaredOffset::At(offset) => offset,
    };
    match gap_to(previous, offset) {
        Some(gap) => Ok(PlacedField { gap, offset, size: field.size }),
        None => {
            let predecessor = if index == 0 {
                0
            } else {
                index - 1
            };
            Err(LayoutError::OffsetOrdering { field: index, predecessor })
        },
    }
}

/// Closes a record behind its last field: the last step of resolving.
pub fn close_record(last: Option<FieldDescriptor>, desired: Option<usize>) -> (r: Result<
    Option<GapSpec>,
    LayoutError,
>)
    ensures
        r == closing_gap(last, desired),
{
    match desired {
        None => Ok(None),
        Some(total) => match gap_to(last, total) {
            Some(gap) => Ok(Some(gap)),
            None => {
                let last_offset = match last {
                    Some(FieldDescriptor { offset: DeclaredOffset::At(start), .. }) => start,
                    _ => 0,
                };
                Err(LayoutError::SizeTooSmall { desired: total, last_offset })
            },
        },
    }
}

/// Resolves a declaration: validates the fields in declaration order and
/// computes the gap before each of them and, where a total size is desired,
/// the gap behind the last.
pub fn resolve(fields: &Vec<FieldDescriptor>, desired: Option<usize>) -> (r: Result<
    LayoutPlan,
    LayoutError,
>)
    ensures
        plan_outcome(r) == resolve_spec(fields@, desired),
{
    let mut placed: Vec<PlacedField> = Vec::new();
    let mut previous: Option<FieldDescriptor> = None;
    let mut i: usize = 0;
    while i < fields.len()
        invariant
            i <= fields.len(),
            first_fault(fields@, i as nat) is None,
            placed@.len() == i,
            forall|k: int| 0 <= k < i ==> placed@[k] == placed_at(fields@, k),
            previous == predecessor(fields@, i as int),
        decreases fields.len() - i,
    {
        let field = fields[i];
        proof {
            if fault_at(fields@, i as int) is Some {
                lemma_first_fault_stays(fields@, (i + 1) as nat, fields@.len());
            }
        }
        match place_field(previous, field, i) {
            Ok(placement) => placed.push(placement),
            Err(e) => {
                return Err(e);
            },
        }
        previous = Some(field);
        i += 1;
    }
    let trailing = match close_record(previous, desired) {
        Ok(trailing) => trailing,
        Err(e) => {
            return Err(e);
        },
    };
    assert(placed@ =~= placed_fields(fields@));
    Ok(LayoutPlan { fields: placed, trailing })
}

} // verus!
