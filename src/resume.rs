//! Where a run resumes: from the target's highest verified index and the
//! source's, the range of blocks still to migrate, or why there is none.
use vstd::prelude::*;
use crate::window::{Migration, held, holds, lemma_tiling_covers_each_index_once, tiling};

verus! {

/// What a run has to do.
#[derive(Clone, Copy, Debug, PartialEq, Eq, Structural)]
pub enum Plan {
    /// The source holds no verified block: nothing to do.
    SourceEmpty,
    /// The target already holds every verified block up to `last_source`.
    FullySynced { last_source: u64 },
    /// The blocks `start ..= last` are to be migrated.
    Migrate { start: u64, last: u64 },
}

/// The first index the target lacks: one past its highest, or 0 when empty.
pub open spec fn next_start(target_max: Option<u64>) -> int {
    match target_max {
        Some(t) => t + 1,
        None => 0,
    }
}

pub open spec fn plan_spec(target_max: Option<u64>, source_max: Option<u64>) -> Plan {
    match source_max {
        None => Plan::SourceEmpty,
        Some(s) => if s < next_start(target_max) {
            Plan::FullySynced { last_source: s }
        } else {
            Plan::Migrate { start: next_start(target_max) as u64, last: s }
        },
    }
}

/// Plans a run from the highest verified index of the target and of the
/// source, each absent when that store holds no verified block.
pub fn plan_resume(target_max: Option<u64>, source_max: Option<u64>) -> (r: Plan)
    ensures
        r == plan_spec(target_max, source_max),
{
    match source_max {
        None => Plan::SourceEmpty,
        Some(s) => {
            let start: u64 = match target_max {
                None => 0,
                Some(t) => {
                    if t >= s {
                        return Plan::FullySynced { last_source: s };
                    }
                    t + 1
                },
            };
            Plan::Migrate { start, last: s }
        },
    }
}

/// A source without verified blocks gives no work, whatever the target holds.
pub proof fn lemma_empty_source_plans_nothing(target_max: Option<u64>)
    ensures
        plan_spec(target_max, None) == Plan::SourceEmpty,
{
}

/// Once the target's highest index is the source's, as a complete run
/// leaves it, a second run over the same source plans no writes.
pub proof fn lemma_rerun_is_fully_synced(source_max: u64)
    ensures
        plan_spec(Some(source_max), Some(source_max)) == (Plan::FullySynced {
            last_source: source_max,
        }),
{
}

/// A complete run started from the plan hands out windows that hold every
/// index from one past the target's previous highest up to the source's
/// highest, each in exactly one window, and its last window ends at the
/// source's highest index.
pub proof fn lemma_complete_run_covers_gap(
    target_max: Option<u64>,
    source_max: u64,
    m: Migration,
)
    requires
        plan_spec(target_max, Some(source_max)) is Migrate,
        m.wf(),
        m.first_index() == plan_spec(target_max, Some(source_max))->Migrate_start,
        m.last_index() == plan_spec(target_max, Some(source_max))->Migrate_last,
        m.exhausted(),
        !m.failed(),
    ensures
        m.windows().len() > 0,
        m.windows().last().last == source_max,
        forall|idx: int| next_start(target_max) <= idx <= source_max ==> #[trigger] held(m.windows(), idx),
        forall|idx: int, a: int, b: int|
            0 <= a < m.windows().len() && 0 <= b < m.windows().len() && #[trigger] holds(
                m.windows()[a],
                idx,
            ) && #[trigger] holds(m.windows()[b], idx) ==> a == b,
        forall|j: int|
            0 <= j < m.windows().len() ==> next_start(target_max) <= (#[trigger] m.windows()[j]).first
                && m.windows()[j].last <= source_max,
{
    let ws = m.windows();
    m.lemma_exhausted_tiles();
    lemma_tiling_covers_each_index_once(ws, m.first_index(), m.last_index(), m.window_size());
}

} // verus!
