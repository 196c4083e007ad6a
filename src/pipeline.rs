//! The per-memo pipeline: a state machine over the processing stages, and the
//! bookkeeping of a run (resumption marker, created tasks, reported failures).
//! The caller performs each stage's work and feeds back its result.

use vstd::prelude::*;
use crate::tracker::{MemoEntry, by_creation};

verus! {

/// A processing stage of one memo.
#[derive(Debug, Clone, Copy, PartialEq, Eq, Structural)]
pub enum Stage {
    /// Checking that the path still names a regular file.
    Validating,
    /// Decoding and resampling the audio.
    Ingesting,
    /// Running the recognizer on the samples.
    Recognizing,
    /// Building the task record from the transcript.
    Assembling,
    /// Handing the task to the task store.
    Persisting,
}

/// Where one memo stands.
#[derive(Debug, Clone, PartialEq, Eq)]
pub enum MemoState {
    /// The given stage is to be performed next.
    Active(Stage),
    /// The task was stored under this identifier.
    Persisted(u128),
    /// Processing stopped at this stage, for the given reason; the memo is
    /// skipped for good.
    Failed(Stage, String),
}

/// What performing a stage produced.
#[derive(Debug, Clone, PartialEq, Eq)]
pub enum StageResult {
    /// The stage completed.
    Succeeded,
    /// The task store accepted the task under this identifier.
    Saved(u128),
    /// The stage failed, for the given reason.
    Failed(String),
}

/// The stage that follows `s` when it succeeds, for every stage before the last.
pub open spec fn following(s: Stage) -> Stage {
    match s {
        Stage::Validating => Stage::Ingesting,
        Stage::Ingesting => Stage::Recognizing,
        Stage::Recognizing => Stage::Assembling,
        _ => Stage::Persisting,
    }
}

/// Whether `r` is a result that stage `s` can produce: only persisting yields
/// an identifier, and only persisting cannot merely succeed.
pub open spec fn fits(s: Stage, r: StageResult) -> bool {
    match r {
        StageResult::Succeeded => s != Stage::Persisting,
        StageResult::Saved(_) => s == Stage::Persisting,
        StageResult::Failed(_) => true,
    }
}

/// The state a memo moves to when stage `s` produced `r`.
pub open spec fn after(s: Stage, r: StageResult) -> MemoState {
    match r {
        StageResult::Succeeded => MemoState::Active(following(s)),
        StageResult::Saved(id) => MemoState::Persisted(id),
        StageResult::Failed(reason) => MemoState::Failed(s, reason),
    }
}

/// The state in which every discovered memo starts.
pub fn discovered() -> (r: MemoState)
    ensures
        r == MemoState::Active(Stage::Validating),
{
    MemoState::Active(Stage::Validating)
}

/// Advances a memo past its current stage, given what that stage produced.
pub fn next_state(state: MemoState, result: StageResult) -> (r: MemoState)
    requires
        state is Active,
        fits(state->Active_0, result),
    ensures
        r == after(state->Active_0, result),
{
    let stage = match state {
        MemoState::Active(s) => s,
        MemoState::Persisted(_) => Stage::Persisting,
        MemoState::Failed(s, _) => s,
    };
    match result {
        StageResult::Succeeded => MemoState::Active(
            match stage {
                Stage::Validating => Stage::Ingesting,
                Stage::Ingesting => Stage::Recognizing,
                Stage::Recognizing => Stage::Assembling,
                _ => Stage::Persisting,
            },
        ),
        StageResult::Saved(id) => MemoState::Persisted(id),
        StageResult::Failed(reason) => MemoState::Failed(stage, reason),
    }
}

/// A memo that could not be turned into a task, the stage that failed, and why.
pub struct Failure {
    pub path: String,
    pub stage: Stage,
    pub reason: String,
}

/// A task created from a memo.
pub struct Created {
    pub path: String,
    pub task_id: u128,
}

/// The bookkeeping of one run over a sequence of memos.
pub struct Batch {
    /// Path of the last memo processed successfully, as the memo's entry gives
    /// it (the marker file holds its canonical form).
    pub marker: Option<String>,
    /// The tasks created in this run, in order.
    pub created: Vec<Created>,
    /// The memos that failed in this run, in order.
    pub failures: Vec<Failure>,
}

/// The marker after one memo: its path when its task was stored, else unchanged.
pub open spec fn step_marker(marker: Option<Seq<char>>, e: MemoEntry, ok: bool) -> Option<Seq<char>> {
    if ok {
        Some(e.path@)
    } else {
        marker
    }
}

/// The marker after processing `entries` in order, where `ok[k]` tells whether
/// the task of `entries[k]` was stored.
pub open spec fn marker_after(
    start: Option<Seq<char>>,
    entries: Seq<MemoEntry>,
    ok: Seq<bool>,
) -> Option<Seq<char>>
    recommends
        entries.len() == ok.len(),
    decreases entries.len(),
{
    if entries.len() == 0 || ok.len() == 0 {
        start
    } else {
        step_marker(marker_after(start, entries.drop_last(), ok.drop_last()), entries.last(), ok.last())
    }
}

/// The marker of a batch as a path.
pub open spec fn marker_view(m: Option<String>) -> Option<Seq<char>> {
    match m {
        Some(s) => Some(s@),
        None => None,
    }
}

impl Batch {
    /// A run that starts from the given marker (none on a first run).
    pub fn new(marker: Option<String>) -> (r: Batch)
        ensures
            r.marker == marker,
            r.created@.len() == 0,
            r.failures@.len() == 0,
    {
        Batch { marker, created: Vec::new(), failures: Vec::new() }
    }

    /// Records how processing `entry` ended. On success the task is recorded
    /// and the marker moves to the memo, whose path is returned for writing to
    /// the marker file; on failure the memo, the failed stage and the reason are
    /// reported and the marker stays.
    pub fn record(&mut self, entry: &MemoEntry, outcome: MemoState) -> (write: Option<String>)
        requires
            !(outcome is Active),
        ensures
            marker_view(final(self).marker) == step_marker(
                marker_view(old(self).marker),
                *entry,
                outcome is Persisted,
            ),
            outcome is Persisted ==> {
                &&& write == Some(entry.path)
                &&& final(self).created@ == old(self).created@.push(
                    Created { path: entry.path, task_id: outcome->Persisted_0 },
                )
                &&& final(self).failures@ == old(self).failures@
            },
            outcome is Failed ==> {
                &&& write is None
                &&& final(self).marker == old(self).marker
                &&& final(self).created@ == old(self).created@
                &&& final(self).failures@ == old(self).failures@.push(
                    Failure { path: entry.path, stage: outcome->Failed_0, reason: outcome->Failed_1 },
                )
            },
    {
        match outcome {
            MemoState::Persisted(id) => {
                self.created.push(Created { path: entry.path.clone(), task_id: id });
                self.marker = Some(entry.path.clone());
                Some(entry.path.clone())
            },
            MemoState::Failed(stage, reason) => {
                self.failures.push(Failure { path: entry.path.clone(), stage, reason });
                None
            },
            MemoState::Active(_) => None,
        }
    }
}

/// Progress is monotonic: when memos are processed in ascending order of
/// creation time, the marker after the run names a successfully processed memo
/// whose creation time is the greatest among all successfully processed ones;
/// when none succeeded the marker is where it started.
pub proof fn lemma_marker_names_latest(start: Option<Seq<char>>, entries: Seq<MemoEntry>, ok: Seq<bool>)
    requires
        entries.len() == ok.len(),
        by_creation(entries),
    ensures
        (forall|k: int| 0 <= k < ok.len() ==> !ok[k]) ==> marker_after(start, entries, ok) == start,
        (exists|k: int| 0 <= k < ok.len() && ok[k]) ==> exists|w: int|
            {
                &&& 0 <= w < ok.len()
                &&& ok[w]
                &&& marker_after(start, entries, ok) == Some(entries[w].path@)
                &&& forall|k: int| 0 <= k < ok.len() && ok[k] ==> entries[k].created <= entries[w].created
            },
    decreases entries.len(),
{
    if entries.len() > 0 {
        let n = entries.len() - 1;
        let pre = entries.drop_last();
        let pok = ok.drop_last();
        assert(by_creation(pre));
        lemma_marker_names_latest(start, pre, pok);
        if ok[n] {
            assert forall|k: int| 0 <= k < ok.len() && ok[k] implies entries[k].created
                <= entries[n].created by {
                if k < n {
                    assert(entries[k].created <= entries[n].created);
                }
            }
        } else {
            assert(forall|k: int| 0 <= k < n ==> pok[k] == ok[k]);
            assert(forall|k: int| 0 <= k < n ==> pre[k] == entries[k]);
            if exists|k: int| 0 <= k < ok.len() && ok[k] {
                let k0 = choose|k: int| 0 <= k < ok.len() && ok[k];
                assert(pok[k0]);
                let w = choose|w: int|
                    {
                        &&& 0 <= w < pok.len()
                        &&& pok[w]
                        &&& marker_after(start, pre, pok) == Some(pre[w].path@)
                        &&& forall|k: int| 0 <= k < pok.len() && pok[k] ==> pre[k].created <= pre[w].created
                    };
                assert(ok[w] && entries[w] == pre[w]);
            } else {
                assert(forall|k: int| 0 <= k < pok.len() ==> !pok[k]);
            }
        }
    }
}

} // verus!
