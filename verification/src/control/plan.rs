//! What the control plane reads of a plan: its stages in order.

use crate::model::{err, fault, outcome, ErrorCode, Fault, SparrowError};
use vstd::prelude::*;

verus! {

/// How a window is cut.
#[derive(Clone, Copy, Debug, PartialEq, Eq, Structural)]
pub enum WindowKind {
    Count { size: u64 },
    TumblingProcessingTime { micros: u64 },
    TumblingEventTime { micros: u64 },
    HoppingEventTime { micros: u64, slide: u64 },
}

/// A stage of a plan.
#[derive(Debug)]
pub enum PlanStage {
    /// Filters and projections.
    Transform,
    /// A window with its operator, the fingerprint of what it aggregates and that
    /// of the filter in front of it, as the planner gives them; the last is zero
    /// where there is no filter.
    Window { operator: u32, kind: WindowKind, fingerprint: u64, filter: u64 },
    Deduplicate,
    Lookup,
    /// Anything that holds no state.
    Other,
}

/// What a checkpoint has to match.
#[derive(Clone, Copy, Debug, PartialEq, Eq, Structural)]
pub struct PlanLayout {
    pub operator: u32,
    pub slot: u32,
    pub window: WindowKind,
    pub fingerprint: u64,
    /// The filter in front of the window; zero where there is none.
    pub where_fingerprint: u64,
}

/// The first window, by its place.
pub open spec fn first_window(stages: Seq<PlanStage>) -> Option<int>
    decreases stages.len(),
{
    if stages.len() == 0 {
        None
    } else {
        match first_window(stages.drop_last()) {
            Some(i) => Some(i),
            None => if stages.last() is Window {
                Some(stages.len() - 1)
            } else {
                None
            },
        }
    }
}

/// The fault of a plan without a window.
pub open spec fn no_window() -> Fault {
    fault(
        ErrorCode::FeatureUnavailable,
        "aligned recovery requires a window operator in the plan"@,
    )
}

/// The layout of a plan: its first window and the filter in front of it.
pub open spec fn layout(stages: Seq<PlanStage>) -> Result<PlanLayout, Fault> {
    match first_window(stages) {
        None => Err(no_window()),
        Some(i) => match stages[i] {
            PlanStage::Window { operator, kind, fingerprint, filter } => Ok(
                PlanLayout {
                    operator,
                    slot: 1,
                    window: kind,
                    fingerprint,
                    where_fingerprint: filter,
                },
            ),
            _ => Err(no_window()),
        },
    }
}

pub(crate) proof fn lemma_first_window(stages: Seq<PlanStage>)
    ensures
        match first_window(stages) {
            Some(i) => 0 <= i < stages.len() && stages[i] is Window && forall|j: int|
                0 <= j < i ==> !(#[trigger] stages[j] is Window),
            None => forall|j: int| 0 <= j < stages.len() ==> !(#[trigger] stages[j] is Window),
        },
    decreases stages.len(),
{
    if stages.len() > 0 {
        lemma_first_window(stages.drop_last());
        assert(forall|j: int|
            0 <= j < stages.len() - 1 ==> #[trigger] stages[j] == stages.drop_last()[j]);
    }
}

proof fn lemma_window_stays(a: Seq<PlanStage>, b: Seq<PlanStage>)
    requires
        first_window(a) is Some,
    ensures
        first_window(a + b) == first_window(a),
    decreases b.len(),
{
    if b.len() == 0 {
        assert(a + b =~= a);
    } else {
        assert((a + b).drop_last() =~= a + b.drop_last());
        lemma_window_stays(a, b.drop_last());
    }
}

/// What comes behind the window does not change the layout.
pub proof fn law_layout_ends_at_the_window(a: Seq<PlanStage>, b: Seq<PlanStage>)
    requires
        first_window(a) is Some,
    ensures
        layout(a + b) == layout(a),
{
    lemma_first_window(a);
    lemma_window_stays(a, b);
}

/// The first window of a plan, by its place.
pub fn window_from_plan(stages: &Vec<PlanStage>) -> (r: Result<usize, SparrowError>)
    ensures
        match r {
            Ok(i) => first_window(stages@) == Some(i as int),
            Err(e) => first_window(stages@) is None && e@ == no_window(),
        },
{
    proof {
        lemma_first_window(stages@);
    }
    let mut i: usize = 0;
    while i < stages.len()
        invariant
            i <= stages.len(),
            forall|j: int| 0 <= j < i ==> !(#[trigger] stages@[j] is Window),
            match first_window(stages@) {
                Some(k) => 0 <= k < stages@.len() && stages@[k] is Window && forall|j: int|
                    0 <= j < k ==> !(#[trigger] stages@[j] is Window),
                None => forall|j: int|
                    0 <= j < stages@.len() ==> !(#[trigger] stages@[j] is Window),
            },
        decreases stages.len() - i,
    {
        match &stages[i] {
            PlanStage::Window { .. } => {
                return Ok(i);
            },
            _ => {},
        }
        i = i + 1;
    }
    Err(err(ErrorCode::FeatureUnavailable, "aligned recovery requires a window operator in the plan"))
}

/// The layout of a plan.
pub fn layout_from_physical(stages: &Vec<PlanStage>) -> (r: Result<PlanLayout, SparrowError>)
    ensures
        outcome(r) == layout(stages@),
{
    proof {
        lemma_first_window(stages@);
    }
    let i: usize = match window_from_plan(stages) {
        Ok(i) => i,
        Err(e) => {
            return Err(e);
        },
    };
    match &stages[i] {
        PlanStage::Window { operator, kind, fingerprint, filter } => Ok(
            PlanLayout {
                operator: *operator,
                slot: 1,
                window: *kind,
                fingerprint: *fingerprint,
                where_fingerprint: *filter,
            },
        ),
        _ => Err(
            err(
                ErrorCode::FeatureUnavailable,
                "aligned recovery requires a window operator in the plan",
            ),
        ),
    }
}

/// Why a plan cannot be checkpointed: the first stage whose state would be lost,
/// or that there is none to keep.
pub open spec fn aligned_fault(stages: Seq<PlanStage>) -> Option<Fault>
    decreases stages.len(),
{
    if stages.len() == 0 {
        None
    } else {
        match aligned_fault(stages.drop_last()) {
            Some(f) => Some(f),
            None => match stages.last() {
                PlanStage::Window { kind: WindowKind::TumblingProcessingTime { .. }, .. } => Some(
                    fault(
                        ErrorCode::UnsupportedRestore,
                        "processing-time windows cannot use recovery=aligned (capabilities: recovery_pt_window=restart_fresh; no PT timer on the aligned path)"@,
                    ),
                ),
                PlanStage::Deduplicate => Some(stripped_fault()),
                PlanStage::Lookup => Some(stripped_fault()),
                _ => None,
            },
        }
    }
}

/// The fault of a stage whose state is not part of a checkpoint.
pub open spec fn stripped_fault() -> Fault {
    fault(
        ErrorCode::FeatureUnavailable,
        "aligned recovery does not snapshot Dedup/Lookup; refuse dishonest strip"@,
    )
}

proof fn lemma_aligned_fault_stays(stages: Seq<PlanStage>, k: int)
    requires
        0 <= k <= stages.len(),
        aligned_fault(stages.take(k)) is Some,
    ensures
        aligned_fault(stages) == aligned_fault(stages.take(k)),
    decreases stages.len() - k,
{
    if k < stages.len() {
        assert(stages.take(k + 1).drop_last() =~= stages.take(k));
        lemma_aligned_fault_stays(stages, k + 1);
    } else {
        assert(stages.take(k) =~= stages);
    }
}

/// Checks that every stage with state can be part of a checkpoint, and that
/// there is a window.
pub fn check_aligned_stages(stages: &Vec<PlanStage>) -> (r: Result<(), SparrowError>)
    ensures
        match r {
            Ok(()) => aligned_fault(stages@) is None && first_window(stages@) is Some,
            Err(e) => match aligned_fault(stages@) {
                Some(f) => e@ == f,
                None => first_window(stages@) is None && e@ == no_window(),
            },
        },
{
    let mut i: usize = 0;
    assert(stages@.take(0) =~= Seq::<PlanStage>::empty());
    while i < stages.len()
        invariant
            i <= stages.len(),
            aligned_fault(stages@.take(i as int)) is None,
        decreases stages.len() - i,
    {
        proof {
            assert(stages@.take(i + 1).drop_last() =~= stages@.take(i as int));
            assert(stages@.take(i + 1).last() == stages@[i as int]);
            if aligned_fault(stages@.take(i + 1)) is Some {
                lemma_aligned_fault_stays(stages@, i + 1);
            }
        }
        match &stages[i] {
            PlanStage::Window { kind: WindowKind::TumblingProcessingTime { .. }, .. } => {
                return Err(
                    err(
                        ErrorCode::UnsupportedRestore,
                        "processing-time windows cannot use recovery=aligned (capabilities: recovery_pt_window=restart_fresh; no PT timer on the aligned path)",
                    ),
                );
            },
            PlanStage::Deduplicate | PlanStage::Lookup => {
                return Err(
                    err(
                        ErrorCode::FeatureUnavailable,
                        "aligned recovery does not snapshot Dedup/Lookup; refuse dishonest strip",
                    ),
                );
            },
            _ => {},
        }
        i = i + 1;
    }
    assert(stages@.take(i as int) =~= stages@);
    match window_from_plan(stages) {
        Ok(_) => Ok(()),
        Err(e) => Err(e),
    }
}

} // verus!
