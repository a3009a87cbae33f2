//! The per-repository sync state machine.
//!
//! One repository is synced by walking the entity phases in a fixed order;
//! the checkpoint is written only from the final `Committed` state, which
//! is reachable only when every phase succeeded. Any failure aborts the
//! repository's sync and leaves its checkpoint untouched, so the next run
//! replays the same window (upserts are idempotent, which makes the replay
//! safe — it is the system's sole retry mechanism).

use crate::rows::CheckpointRowV;
use crate::store::{checkpoint_key, spec_checkpoint, Store, StoreV};
use crate::table::{lemma_upsert_find, upsert_seq};
use vstd::prelude::*;

verus! {

/// The states of one repository's sync.
#[derive(Debug, Clone, Copy, PartialEq, Eq, Structural)]
pub enum SyncPhase {
    Idle,
    FetchingPrs,
    FetchingIssues,
    FetchingIssueComments,
    FetchingPrComments,
    FetchingStars,
    FetchingCommits,
    FetchingWorkflows,
    Committed,
    Aborted,
}

/// The transition relation: each phase advances to the next on success and
/// aborts on failure; `Committed` and `Aborted` are terminal.
pub open spec fn spec_next_phase(p: SyncPhase, ok: bool) -> SyncPhase {
    match p {
        SyncPhase::Committed => SyncPhase::Committed,
        SyncPhase::Aborted => SyncPhase::Aborted,
        _ => if !ok {
            SyncPhase::Aborted
        } else {
            match p {
                SyncPhase::Idle => SyncPhase::FetchingPrs,
                SyncPhase::FetchingPrs => SyncPhase::FetchingIssues,
                SyncPhase::FetchingIssues => SyncPhase::FetchingIssueComments,
                SyncPhase::FetchingIssueComments => SyncPhase::FetchingPrComments,
                SyncPhase::FetchingPrComments => SyncPhase::FetchingStars,
                SyncPhase::FetchingStars => SyncPhase::FetchingCommits,
                SyncPhase::FetchingCommits => SyncPhase::FetchingWorkflows,
                SyncPhase::FetchingWorkflows => SyncPhase::Committed,
                SyncPhase::Committed => SyncPhase::Committed,
                SyncPhase::Aborted => SyncPhase::Aborted,
            }
        },
    }
}

/// Advance the state machine by one phase result.
pub fn next_phase(p: SyncPhase, ok: bool) -> (q: SyncPhase)
    ensures
        q == spec_next_phase(p, ok),
{
    match p {
        SyncPhase::Committed => SyncPhase::Committed,
        SyncPhase::Aborted => SyncPhase::Aborted,
        _ => {
            if !ok {
                SyncPhase::Aborted
            } else {
                match p {
                    SyncPhase::Idle => SyncPhase::FetchingPrs,
                    SyncPhase::FetchingPrs => SyncPhase::FetchingIssues,
                    SyncPhase::FetchingIssues => SyncPhase::FetchingIssueComments,
                    SyncPhase::FetchingIssueComments => SyncPhase::FetchingPrComments,
                    SyncPhase::FetchingPrComments => SyncPhase::FetchingStars,
                    SyncPhase::FetchingStars => SyncPhase::FetchingCommits,
                    SyncPhase::FetchingCommits => SyncPhase::FetchingWorkflows,
                    SyncPhase::FetchingWorkflows => SyncPhase::Committed,
                    SyncPhase::Committed => SyncPhase::Committed,
                    SyncPhase::Aborted => SyncPhase::Aborted,
                }
            }
        },
    }
}

/// Fold of one phase step.
pub open spec fn phase_step() -> spec_fn(SyncPhase, bool) -> SyncPhase {
    |p: SyncPhase, ok: bool| spec_next_phase(p, ok)
}

/// The state after a sequence of phase results, starting idle.
pub open spec fn run_phases(results: Seq<bool>) -> SyncPhase {
    results.fold_left(SyncPhase::Idle, phase_step())
}

/// The number of phase transitions between `Idle` and `Committed`: the
/// start plus the seven entity loops.
pub open spec fn phase_count() -> int {
    8
}

/// The state reached after `n` straight successes from idle.
pub open spec fn phase_of_count(n: int) -> SyncPhase {
    if n <= 0 {
        SyncPhase::Idle
    } else if n == 1 {
        SyncPhase::FetchingPrs
    } else if n == 2 {
        SyncPhase::FetchingIssues
    } else if n == 3 {
        SyncPhase::FetchingIssueComments
    } else if n == 4 {
        SyncPhase::FetchingPrComments
    } else if n == 5 {
        SyncPhase::FetchingStars
    } else if n == 6 {
        SyncPhase::FetchingCommits
    } else if n == 7 {
        SyncPhase::FetchingWorkflows
    } else {
        SyncPhase::Committed
    }
}

/// The first `n` results all report success.
pub open spec fn all_ok_upto(results: Seq<bool>, n: int) -> bool {
    forall|k: int| 0 <= k < n ==> results[k]
}

/// Full characterization of a run: with no failure among the phases that
/// matter, the machine sits at the state its step count names; one failure
/// there aborts it.
pub proof fn lemma_run_phases(results: Seq<bool>)
    ensures
        all_ok_upto(
            results,
            if results.len() < phase_count() {
                results.len() as int
            } else {
                phase_count()
            },
        ) ==> run_phases(results) == phase_of_count(results.len() as int),
        !all_ok_upto(
            results,
            if results.len() < phase_count() {
                results.len() as int
            } else {
                phase_count()
            },
        ) ==> run_phases(results) == SyncPhase::Aborted,
    decreases results.len(),
{
    let n = results.len() as int;
    let m: int = if n < phase_count() {
        n
    } else {
        phase_count()
    };
    if n == 0 {
    } else {
        let b = results.drop_last();
        let x = results.last();
        lemma_run_phases(b);
        assert(run_phases(results) == phase_step()(run_phases(b), x));
        let mb: int = if b.len() < phase_count() {
            b.len() as int
        } else {
            phase_count()
        };
        assert(forall|k: int| 0 <= k < n - 1 ==> b[k] == results[k]);
        if all_ok_upto(results, m) {
            assert(all_ok_upto(b, mb));
        } else if all_ok_upto(b, mb) {
            // The failure can only sit at the last result, inside the
            // phases that matter: the machine was mid-run and aborts.
            let bad = choose|k: int| 0 <= k < m && !results[k];
            assert(bad == n - 1 && n - 1 < phase_count());
            assert(run_phases(b) == phase_of_count(n - 1));
        }
    }
}

/// A run commits exactly when it made the full count of transitions and
/// every phase among them succeeded: the checkpoint can only be advanced
/// after a fully successful pass.
pub proof fn lemma_committed_requires_all_ok(results: Seq<bool>)
    ensures
        (run_phases(results) == SyncPhase::Committed) <==> (results.len() >= phase_count()
            && all_ok_upto(results, phase_count())),
{
    lemma_run_phases(results);
}

/// Conclude one repository's sync: write the checkpoint exactly when the
/// machine committed; otherwise leave the store untouched.
pub fn finish_repo_sync(
    store: &mut Store,
    org: &str,
    repo: &str,
    phase: SyncPhase,
    now: i64,
) -> (committed: bool)
    ensures
        committed == (phase == SyncPhase::Committed),
        phase == SyncPhase::Committed ==> final(store)@ =~= (StoreV {
            checkpoints: upsert_seq(
                old(store)@.checkpoints,
                CheckpointRowV { org: org@, repo: repo@, synced_at: now },
                checkpoint_key(),
            ),
            ..old(store)@
        }) && spec_checkpoint(final(store)@, org@, repo@) == now,
        phase != SyncPhase::Committed ==> final(store)@ == old(store)@,
        old(store)@.wf() ==> final(store)@.wf(),
{
    if matches!(phase, SyncPhase::Committed) {
        store.set_checkpoint(org, repo, now);
        true
    } else {
        false
    }
}

/// Checkpoint monotonicity: writing a checkpoint taken at or after the
/// stored one never moves it backward.
pub proof fn lemma_checkpoint_monotonic(s: StoreV, org: Seq<char>, repo: Seq<char>, now: i64)
    requires
        now >= spec_checkpoint(s, org, repo),
    ensures
        spec_checkpoint(
            StoreV {
                checkpoints: upsert_seq(
                    s.checkpoints,
                    CheckpointRowV { org: org, repo: repo, synced_at: now },
                    checkpoint_key(),
                ),
                ..s
            },
            org,
            repo,
        ) >= spec_checkpoint(s, org, repo),
{
    lemma_upsert_find(
        s.checkpoints,
        CheckpointRowV { org: org, repo: repo, synced_at: now },
        (org, repo),
        checkpoint_key(),
    );
}

} // verus!
