//! Evaluation of a plan, as the host compiler performs it on the packed
//! representation: every deferred gap is computed from the true size of the
//! type before it, and the fields are laid out one behind the other.

use vstd::prelude::*;
use crate::model::{
    layout_outcome, GapSpec, Layout, LayoutError, LayoutModel, LayoutPlan, LayoutPlanModel,
    TypeSize,
};

verus! {

/// Whether the size of the type of field `i` can be told: it is known
/// statically or supplied in `sizes`.
pub open spec fn can_tell(size: TypeSize, sizes: Seq<usize>, i: int) -> bool {
    size is Known || i < sizes.len()
}

/// The true size of the type of field `i`: the statically known size, else the
/// one supplied; zero where neither is there.
pub open spec fn told_size(size: TypeSize, sizes: Seq<usize>, i: int) -> int {
    match size {
        TypeSize::Known(size) => size as int,
        TypeSize::Deferred => if i < sizes.len() {
            sizes[i] as int
        } else {
            0
        },
    }
}

/// Whether the size of the type of field `i` of the plan can be told.
pub open spec fn size_resolved(plan: LayoutPlanModel, sizes: Seq<usize>, i: int) -> bool {
    can_tell(plan.fields[i].size, sizes, i)
}

/// The true size of the type of field `i` of the plan.
pub open spec fn true_size(plan: LayoutPlanModel, sizes: Seq<usize>, i: int) -> int {
    told_size(plan.fields[i].size, sizes, i)
}

/// The size that a deferred gap at place `k` subtracts: that of the type of
/// the field before it; nothing before the first field.
pub open spec fn preceding_size(plan: LayoutPlanModel, sizes: Seq<usize>, k: int) -> int {
    if k == 0 {
        0
    } else {
        true_size(plan, sizes, k - 1)
    }
}

/// The length a gap evaluates to behind a field of `preceding` bytes. A
/// negative length is an underflow.
pub open spec fn gap_length(gap: GapSpec, preceding: int) -> int {
    match gap {
        GapSpec::Known(length) => length as int,
        GapSpec::Deferred { span } => span - preceding,
    }
}

/// The evaluated length of the gap before field `k`.
pub open spec fn gap_length_at(plan: LayoutPlanModel, sizes: Seq<usize>, k: int) -> int {
    gap_length(plan.fields[k].gap, preceding_size(plan, sizes, k))
}

/// The evaluated length of the trailing gap; zero where the plan has none.
pub open spec fn trailing_length(plan: LayoutPlanModel, sizes: Seq<usize>) -> int {
    match plan.trailing {
        Some(gap) => gap_length(gap, preceding_size(plan, sizes, plan.fields.len() as int)),
        None => 0,
    }
}

/// The byte position behind the first `k` fields and the gaps before them.
pub open spec fn end_of(plan: LayoutPlanModel, sizes: Seq<usize>, k: nat) -> int
    decreases k,
{
    if k == 0 {
        0
    } else {
        end_of(plan, sizes, (k - 1) as nat) + gap_length_at(plan, sizes, k - 1) + true_size(
            plan,
            sizes,
            k - 1,
        )
    }
}

/// The byte position at which field `k` starts.
pub open spec fn position_of(plan: LayoutPlanModel, sizes: Seq<usize>, k: int) -> int {
    end_of(plan, sizes, k as nat) + gap_length_at(plan, sizes, k)
}

/// The total size: the end of the last field and the trailing gap.
pub open spec fn total_size(plan: LayoutPlanModel, sizes: Seq<usize>) -> int {
    end_of(plan, sizes, plan.fields.len()) + trailing_length(plan, sizes)
}

/// What stops the evaluation at field `k`: a negative gap before it, a size
/// that cannot be told, or an end beyond the address space.
pub open spec fn stop_at(plan: LayoutPlanModel, sizes: Seq<usize>, k: int) -> Option<LayoutError> {
    if gap_length_at(plan, sizes, k) < 0 {
        Some(LayoutError::DeferredUnderflow { gap: k as usize })
    } else if !size_resolved(plan, sizes, k) {
        Some(LayoutError::UnresolvedSize { field: k as usize })
    } else if end_of(plan, sizes, (k + 1) as nat) > usize::MAX {
        Some(LayoutError::LayoutOverflow)
    } else {
        None
    }
}

/// What stops the evaluation within the first `n` fields: the stop of the
/// earliest field that has one.
pub open spec fn first_stop(plan: LayoutPlanModel, sizes: Seq<usize>, n: nat) -> Option<
    LayoutError,
>
    decreases n,
{
    if n == 0 {
        None
    } else {
        match first_stop(plan, sizes, (n - 1) as nat) {
            Some(e) => Some(e),
            None => stop_at(plan, sizes, n - 1),
        }
    }
}

/// What stops the evaluation behind the last field: a negative trailing gap or
/// a total beyond the address space.
pub open spec fn trailing_stop(plan: LayoutPlanModel, sizes: Seq<usize>) -> Option<LayoutError> {
    if trailing_length(plan, sizes) < 0 {
        Some(LayoutError::DeferredUnderflow { gap: plan.fields.len() as usize })
    } else if total_size(plan, sizes) > usize::MAX {
        Some(LayoutError::LayoutOverflow)
    } else {
        None
    }
}

/// The evaluated lengths of the gaps, in plan order.
pub open spec fn gap_lengths(plan: LayoutPlanModel, sizes: Seq<usize>) -> Seq<usize> {
    let before = Seq::new(plan.fields.len(), |k: int| gap_length_at(plan, sizes, k) as usize);
    match plan.trailing {
        Some(_) => before.push(trailing_length(plan, sizes) as usize),
        None => before,
    }
}

/// What evaluating `plan` gives, with `sizes[i]` the true size of the type of
/// field `i` where the plan defers it: the earliest stop, else the layout.
pub open spec fn evaluate_spec(plan: LayoutPlanModel, sizes: Seq<usize>) -> Result<
    LayoutModel,
    LayoutError,
> {
    match first_stop(plan, sizes, plan.fields.len()) {
        Some(e) => Err(e),
        None => match trailing_stop(plan, sizes) {
            Some(e) => Err(e),
            None => Ok(
                LayoutModel {
                    positions: Seq::new(
                        plan.fields.len(),
                        |k: int| position_of(plan, sizes, k) as usize,
                    ),
                    gaps: gap_lengths(plan, sizes),
                    size: total_size(plan, sizes) as usize,
                },
            ),
        },
    }
}

/// A stop found within the first `i` fields is the stop of every longer
/// prefix.
pub proof fn lemma_first_stop_stays(plan: LayoutPlanModel, sizes: Seq<usize>, i: nat, n: nat)
    requires
        i <= n,
        first_stop(plan, sizes, i) is Some,
    ensures
        first_stop(plan, sizes, n) == first_stop(plan, sizes, i),
    decreases n,
{
    if i < n {
        lemma_first_stop_stays(plan, sizes, i, (n - 1) as nat);
    }
}

/// Evaluates one gap behind a field of `preceding` bytes.
pub fn evaluate_gap(gap: GapSpec, preceding: usize) -> (r: Option<usize>)
    ensures
        r is Some <==> gap_length(gap, preceding as int) >= 0,
        r matches Some(length) ==> length == gap_length(gap, preceding as int),
{
    match gap {
        GapSpec::Known(length) => Some(length),
        GapSpec::Deferred { span } => span.checked_sub(preceding),
    }
}

impl LayoutPlan {
    /// Evaluates the plan as the host compiler does. `sizes[i]` is the true
    /// size of the type of field `i`; it is read only where the plan defers
    /// that size.
    pub fn evaluate(&self, sizes: &Vec<usize>) -> (r: Result<Layout, LayoutError>)
        ensures
            layout_outcome(r) == evaluate_spec(self@, sizes@),
    {
        let mut positions: Vec<usize> = Vec::new();
        let mut gaps: Vec<usize> = Vec::new();
        let mut end: usize = 0;
        let mut preceding: usize = 0;
        let mut k: usize = 0;
        while k < self.fields.len()
            invariant
                k <= self.fields.len(),
                first_stop(self@, sizes@, k as nat) is None,
                end == end_of(self@, sizes@, k as nat),
                preceding == preceding_size(self@, sizes@, k as int),
                positions@.len() == k,
                gaps@.len() == k,
                forall|j: int| 0 <= j < k ==> positions@[j] == position_of(self@, sizes@, j),
                forall|j: int| 0 <= j < k ==> gaps@[j] == gap_length_at(self@, sizes@, j),
            decreases self.fields.len() - k,
        {
            let field = self.fields[k];
            proof {
                if stop_at(self@, sizes@, k as int) is Some {
                    lemma_first_stop_stays(self@, sizes@, (k + 1) as nat, self.fields@.len());
                }
            }
            let length = match evaluate_gap(field.gap, preceding) {
                Some(length) => length,
                None => {
                    return Err(LayoutError::DeferredUnderflow { gap: k });
                },
            };
            let size = match field.size {
                TypeSize::Known(size) => size,
                TypeSize::Deferred => {
                    if k < sizes.len() {
                        sizes[k]
                    } else {
                        return Err(LayoutError::UnresolvedSize { field: k });
                    }
                },
            };
            let position = match end.checked_add(length) {
                Some(position) => position,
                None => {
                    return Err(LayoutError::LayoutOverflow);
                },
            };
            end = match position.checked_add(size) {
                Some(next) => next,
                None => {
                    return Err(LayoutError::LayoutOverflow);
                },
            };
            positions.push(position);
            gaps.push(length);
            preceding = size;
            k += 1;
        }
        let mut size = end;
        if let Some(gap) = self.trailing {
            let length = match evaluate_gap(gap, preceding) {
                Some(length) => length,
                None => {
                    return Err(LayoutError::DeferredUnderflow { gap: k });
                },
            };
            size = match end.checked_add(length) {
                Some(total) => total,
                None => {
                    return Err(LayoutError::LayoutOverflow);
                },
            };
            gaps.push(length);
        }
        assert(positions@ =~= evaluate_spec(self@, sizes@)->Ok_0.positions);
        assert(gaps@ =~= gap_lengths(self@, sizes@));
        Ok(Layout { positions, gaps, size })
    }
}

} // verus!
