//! What holds of resolving and evaluating together.

use vstd::prelude::*;
use crate::evaluate::{
    can_tell, end_of, evaluate_spec, first_stop, position_of, stop_at, told_size, total_size,
    trailing_stop, true_size,
};
use crate::declaration::{
    descriptors_of, directive_name, first_named, lemma_first_named_is_named, offset_declared_by,
    offset_name, plan_spec, Declaration,
};
use crate::model::{
    plan_outcome, DeclKind, DeclaredOffset, FieldDescriptor, GapSpec, LayoutError, LayoutPlan,
    LayoutPlanModel, TypeSize,
};
use crate::resolve::{
    fault_at, first_fault, lemma_first_fault_stays, placed_fields, resolve_spec, trailing_gap,
};

verus! {

/// The first `n` fields have no fault exactly when none of them has one.
pub proof fn lemma_no_fault(fields: Seq<FieldDescriptor>, n: nat)
    ensures
        first_fault(fields, n) is None <==> forall|j: int|
            0 <= j < n ==> fault_at(fields, j) is None,
    decreases n,
{
    if n > 0 {
        lemma_no_fault(fields, (n - 1) as nat);
    }
}

/// Resolving reports the fault of the earliest faulty field, whatever follows
/// it and whatever total size is desired.
pub proof fn lemma_earliest_fault_is_reported(
    fields: Seq<FieldDescriptor>,
    desired: Option<usize>,
    i: int,
)
    requires
        0 <= i < fields.len(),
        fault_at(fields, i) is Some,
        forall|j: int| 0 <= j < i ==> fault_at(fields, j) is None,
    ensures
        resolve_spec(fields, desired) == Err::<LayoutPlanModel, LayoutError>(
            fault_at(fields, i)->Some_0,
        ),
{
    lemma_no_fault(fields, i as nat);
    lemma_first_fault_stays(fields, (i + 1) as nat, fields.len());
}

/// A field declared below the offset of the field before it has no layout:
/// resolving fails, and with the ordering fault of that field where no
/// earlier field is faulty.
pub proof fn lemma_lower_offset_is_rejected(
    fields: Seq<FieldDescriptor>,
    desired: Option<usize>,
    i: int,
)
    requires
        fields.len() <= usize::MAX,
        0 < i < fields.len(),
        fields[i].offset is At,
        fields[i].offset.value() < fields[i - 1].offset.value(),
    ensures
        resolve_spec(fields, desired) is Err,
        (forall|j: int| 0 <= j < i ==> fault_at(fields, j) is None) ==> resolve_spec(
            fields,
            desired,
        ) == Err::<LayoutPlanModel, LayoutError>(
            LayoutError::OffsetOrdering { field: i as usize, predecessor: (i - 1) as usize },
        ),
{
    assert(fault_at(fields, i) is Some);
    lemma_no_fault(fields, fields.len());
    if forall|j: int| 0 <= j < i ==> fault_at(fields, j) is None {
        lemma_earliest_fault_is_reported(fields, desired, i);
    }
}

/// Resolving succeeds exactly when no field is faulty and the desired total
/// size, where there is one, can hold the last field as far as its size is
/// known.
pub proof fn lemma_resolve_succeeds(fields: Seq<FieldDescriptor>, desired: Option<usize>)
    ensures
        resolve_spec(fields, desired) is Ok <==> {
            &&& forall|j: int| 0 <= j < fields.len() ==> fault_at(fields, j) is None
            &&& trailing_gap(fields, desired) is Ok
        },
{
    lemma_no_fault(fields, fields.len());
}

/// In a plan of faultless fields the gaps add up: each field starts at its
/// declared offset, and the first `k` fields end behind the last of them.
proof fn lemma_gaps_add_up(
    fields: Seq<FieldDescriptor>,
    plan: LayoutPlanModel,
    sizes: Seq<usize>,
    k: nat,
)
    requires
        plan.fields == placed_fields(fields),
        forall|j: int| 0 <= j < fields.len() ==> fault_at(fields, j) is None,
        k <= fields.len(),
    ensures
        end_of(plan, sizes, k) == if k == 0 {
            0
        } else {
            fields[k - 1].offset.value() + true_size(plan, sizes, k - 1)
        },
        k < fields.len() ==> position_of(plan, sizes, k as int) == fields[k as int].offset.value(),
    decreases k,
{
    if k > 0 {
        lemma_gaps_add_up(fields, plan, sizes, (k - 1) as nat);
        assert(fault_at(fields, k - 1) is None);
    }
    if k < fields.len() {
        assert(fault_at(fields, k as int) is None);
    }
}

/// Every field of a resolved plan lands on its declared offset: whatever the
/// true sizes are, the gaps before a field and the fields before it add up to
/// the offset that was declared for it, and an evaluation that succeeds
/// reports that offset as the field's position.
pub proof fn lemma_fields_land_on_declared_offsets(
    fields: Seq<FieldDescriptor>,
    desired: Option<usize>,
    sizes: Seq<usize>,
)
    requires
        resolve_spec(fields, desired) is Ok,
    ensures
        forall|k: int|
            0 <= k < fields.len() ==> #[trigger] position_of(
                resolve_spec(fields, desired)->Ok_0,
                sizes,
                k,
            ) == fields[k].offset.value(),
        evaluate_spec(resolve_spec(fields, desired)->Ok_0, sizes) matches Ok(layout) ==> {
            &&& layout.positions.len() == fields.len()
            &&& forall|k: int|
                0 <= k < fields.len() ==> layout.positions[k] == fields[k].offset.value()
        },
{
    let plan = resolve_spec(fields, desired)->Ok_0;
    lemma_no_fault(fields, fields.len());
    assert forall|k: int| 0 <= k < fields.len() implies #[trigger] position_of(plan, sizes, k)
        == fields[k].offset.value() by {
        lemma_gaps_add_up(fields, plan, sizes, k as nat);
    }
}

/// The size that a resolved declaration comes to: the desired total size
/// where there is one, else the end of the last field, and nothing for a
/// declaration without fields.
pub open spec fn expected_size(
    fields: Seq<FieldDescriptor>,
    desired: Option<usize>,
    sizes: Seq<usize>,
) -> int {
    match desired {
        Some(total) => total as int,
        None => if fields.len() == 0 {
            0
        } else {
            fields.last().offset.value() + told_size(fields.last().size, sizes, fields.len() - 1)
        },
    }
}

/// The total size of a resolved plan is the desired total size where there is
/// one, else the end of the last field.
pub proof fn lemma_total_size(
    fields: Seq<FieldDescriptor>,
    desired: Option<usize>,
    sizes: Seq<usize>,
)
    requires
        resolve_spec(fields, desired) is Ok,
    ensures
        total_size(resolve_spec(fields, desired)->Ok_0, sizes) == expected_size(
            fields,
            desired,
            sizes,
        ),
        evaluate_spec(resolve_spec(fields, desired)->Ok_0, sizes) matches Ok(layout)
            ==> layout.size == expected_size(fields, desired, sizes),
{
    let plan = resolve_spec(fields, desired)->Ok_0;
    lemma_no_fault(fields, fields.len());
    lemma_gaps_add_up(fields, plan, sizes, fields.len());
}

/// Whether the fields fit where they are declared: every size can be told, no
/// field reaches beyond the offset of the next, and the last ends within the
/// desired total size or, where none is desired, within the address space.
pub open spec fn fits(fields: Seq<FieldDescriptor>, desired: Option<usize>, sizes: Seq<usize>) -> bool {
    &&& forall|k: int| 0 <= k < fields.len() ==> can_tell(#[trigger] fields[k].size, sizes, k)
    &&& forall|k: int|
        0 <= k < fields.len() - 1 ==> fields[k].offset.value() + told_size(
            fields[k].size,
            sizes,
            k,
        ) <= (#[trigger] fields[k + 1]).offset.value()
    &&& fields.len() > 0 ==> fields.last().offset.value() + told_size(
        fields.last().size,
        sizes,
        fields.len() - 1,
    ) <= match desired {
        Some(total) => total as int,
        None => usize::MAX as int,
    }
}

/// Nothing stops the evaluation within the first `n` fields exactly when
/// nothing stops it at any of them.
pub proof fn lemma_no_stop(plan: LayoutPlanModel, sizes: Seq<usize>, n: nat)
    ensures
        first_stop(plan, sizes, n) is None <==> forall|k: int|
            0 <= k < n ==> stop_at(plan, sizes, k) is None,
    decreases n,
{
    if n > 0 {
        lemma_no_stop(plan, sizes, (n - 1) as nat);
    }
}

/// A resolved plan evaluates to a layout exactly when the fields fit where
/// they are declared.
pub proof fn lemma_evaluation_succeeds_when_fields_fit(
    fields: Seq<FieldDescriptor>,
    desired: Option<usize>,
    sizes: Seq<usize>,
)
    requires
        resolve_spec(fields, desired) is Ok,
    ensures
        evaluate_spec(resolve_spec(fields, desired)->Ok_0, sizes) is Ok <==> fits(
            fields,
            desired,
            sizes,
        ),
{
    let plan = resolve_spec(fields, desired)->Ok_0;
    let n = fields.len();
    lemma_no_fault(fields, n);
    lemma_no_stop(plan, sizes, n);
    lemma_gaps_add_up(fields, plan, sizes, n);
    assert forall|k: int| 0 <= k < n implies {
        &&& #[trigger] position_of(plan, sizes, k) == fields[k].offset.value()
        &&& end_of(plan, sizes, (k + 1) as nat) == fields[k].offset.value() + true_size(
            plan,
            sizes,
            k,
        )
    } by {
        lemma_gaps_add_up(fields, plan, sizes, k as nat);
        lemma_gaps_add_up(fields, plan, sizes, (k + 1) as nat);
    }
    if fits(fields, desired, sizes) {
        assert forall|k: int| 0 <= k < n implies stop_at(plan, sizes, k) is None by {
            assert(position_of(plan, sizes, k) == fields[k].offset.value());
            assert(can_tell(fields[k].size, sizes, k));
            if k > 0 {
                assert(position_of(plan, sizes, k - 1) == fields[k - 1].offset.value());
                assert(fields[k - 1].offset.value() + told_size(fields[k - 1].size, sizes, k - 1)
                    <= fields[k - 1 + 1].offset.value());
            }
            if k < n - 1 {
                assert(fields[k].offset.value() + told_size(fields[k].size, sizes, k) <= fields[k
                    + 1].offset.value());
            }
        }
        assert(trailing_stop(plan, sizes) is None);
    }
    if evaluate_spec(plan, sizes) is Ok {
        assert forall|k: int| 0 <= k < n implies can_tell(#[trigger] fields[k].size, sizes, k) by {
            assert(stop_at(plan, sizes, k) is None);
        }
        assert forall|k: int| 0 <= k < n - 1 implies fields[k].offset.value() + told_size(
            fields[k].size,
            sizes,
            k,
        ) <= (#[trigger] fields[k + 1]).offset.value() by {
            assert(stop_at(plan, sizes, k + 1) is None);
            assert(position_of(plan, sizes, k + 1) == fields[k + 1].offset.value());
            assert(position_of(plan, sizes, k) == fields[k].offset.value());
        }
        if n > 0 {
            assert(stop_at(plan, sizes, n - 1) is None);
            assert(position_of(plan, sizes, n - 1) == fields[n - 1].offset.value());
        }
        assert(trailing_stop(plan, sizes) is None);
    }
}

/// Resolving is a function of its input: two results that meet the contract
/// of `resolve` on the same declaration are both the same plan or both the
/// same fault.
pub proof fn lemma_resolve_is_deterministic(
    fields: Seq<FieldDescriptor>,
    desired: Option<usize>,
    first: Result<LayoutPlan, LayoutError>,
    second: Result<LayoutPlan, LayoutError>,
)
    requires
        plan_outcome(first) == resolve_spec(fields, desired),
        plan_outcome(second) == resolve_spec(fields, desired),
    ensures
        plan_outcome(first) == plan_outcome(second),
        first is Ok <==> second is Ok,
        first is Ok ==> first->Ok_0@ == second->Ok_0@,
        first is Err ==> first->Err_0 == second->Err_0,
{
}

/// The shape of a resolved plan: it holds every declared field, in order and
/// at its declared offset; the first gap is the whole first offset; a later
/// gap is deferred exactly when the size of the field before it is; and the
/// plan has a trailing gap exactly when a total size is desired.
pub proof fn lemma_plan_shape(fields: Seq<FieldDescriptor>, desired: Option<usize>)
    requires
        resolve_spec(fields, desired) is Ok,
    ensures
        ({
            let plan = resolve_spec(fields, desired)->Ok_0;
            &&& plan.fields.len() == fields.len()
            &&& forall|k: int|
                0 <= k < fields.len() ==> fields[k].offset == DeclaredOffset::At(
                    (#[trigger] plan.fields[k]).offset,
                ) && plan.fields[k].size == fields[k].size
            &&& fields.len() > 0 ==> plan.fields[0].gap == GapSpec::Known(plan.fields[0].offset)
            &&& forall|k: int|
                0 < k < fields.len() ==> ((#[trigger] plan.fields[k]).gap is Deferred
                    <==> fields[k - 1].size is Deferred)
            &&& plan.trailing is Some <==> desired is Some
        }),
{
    let plan = resolve_spec(fields, desired)->Ok_0;
    lemma_no_fault(fields, fields.len());
    assert forall|k: int| 0 <= k < fields.len() implies fields[k].offset == DeclaredOffset::At(
        (#[trigger] plan.fields[k]).offset,
    ) by {
        assert(fault_at(fields, k) is None);
    }
}

/// The declared offsets of a resolved plan never decrease, and a field of
/// known size ends at or before the offset of the next.
pub proof fn lemma_offsets_never_decrease(
    fields: Seq<FieldDescriptor>,
    desired: Option<usize>,
    j: int,
    k: int,
)
    requires
        resolve_spec(fields, desired) is Ok,
        0 <= j <= k < fields.len(),
    ensures
        fields[j].offset.value() <= fields[k].offset.value(),
        j < k ==> (fields[j].size matches TypeSize::Known(size) ==> fields[j].offset.value() + size
            <= fields[k].offset.value()),
    decreases k - j,
{
    lemma_no_fault(fields, fields.len());
    if j < k {
        assert(fault_at(fields, j + 1) is None);
        lemma_offsets_never_decrease(fields, desired, j + 1, k);
    }
}

/// A declaration that has a plan is a struct that asks for no representation
/// by hand.
pub proof fn lemma_planned_declaration_is_clean(decl: Declaration)
    requires
        plan_spec(decl) is Ok,
    ensures
        decl.kind == DeclKind::Struct,
        forall|i: int|
            0 <= i < decl.annotations@.len() ==> (#[trigger] decl.annotations@[i]).name@
                != directive_name(),
{
    lemma_first_named_is_named(decl.annotations@, directive_name(), 0);
}

/// A declaration with a field that carries two offset annotations has no
/// plan.
pub proof fn lemma_two_offsets_are_refused(decl: Declaration, field: int, first: int, second: int)
    requires
        0 <= field < decl.fields@.len(),
        0 <= first < second < decl.fields@[field].annotations@.len(),
        decl.fields@[field].annotations@[first].declares_offset(),
        decl.fields@[field].annotations@[second].declares_offset(),
    ensures
        plan_spec(decl) is Err,
        offset_declared_by(decl.fields@[field].annotations@) == DeclaredOffset::Duplicate,
{
    let annotations = decl.fields@[field].annotations@;
    lemma_first_named_is_named(annotations, offset_name(), 0);
    let found = first_named(annotations, offset_name(), 0)->Some_0;
    lemma_first_named_is_named(annotations, offset_name(), found + 1);
    let fields = descriptors_of(decl.fields@);
    assert(fields[field].offset == DeclaredOffset::Duplicate);
    assert(fault_at(fields, field) is Some);
    lemma_no_fault(fields, fields.len());
}

} // verus!
