//! The reconciler: drift correction for issues that were closed or deleted
//! upstream without a visible update, and therefore invisible to the
//! watermark.
//!
//! The sweep compares the locally open issue numbers against the full
//! remote open set; every number the remote no longer lists is probed
//! individually. A found issue takes over the fresh state; a gone issue is
//! marked deleted, terminally.

use crate::rows::{IssueRow, IssueRowV, IssueState};
use crate::store::{issue_key, view_rows, Store, StoreV};
use crate::strutil::str_eq;
use crate::time::{rfc3339_secs, ts_in_range};
use vstd::prelude::*;

verus! {

/// Outcome of probing one locally open issue by number.
#[derive(Debug, Clone)]
pub enum IssueProbe {
    /// The remote still knows the issue: it left the open set for an
    /// ordinary reason, and its fresh state and closing instant are taken
    /// over.
    Found { state: Option<String>, closed_at: Option<String> },
    /// The remote answered not-found or gone: the issue was deleted
    /// upstream.
    Gone,
}

/// An issue row the sweep considers open: listed open, not closed, not
/// soft-deleted.
pub open spec fn spec_issue_open(r: IssueRowV) -> bool {
    r.state == IssueState::Open && r.closed_at is None && r.deleted_at is None
}

/// The open rows of one repository, in table order.
pub open spec fn open_issue_pred(repo: Seq<char>) -> spec_fn(IssueRowV) -> bool {
    |r: IssueRowV| r.repo == repo && spec_issue_open(r)
}

/// The numbers of a row sequence.
pub open spec fn numbers_of(s: Seq<IssueRowV>) -> Seq<int> {
    s.map_values(|r: IssueRowV| r.number)
}

/// The numbers as stored.
pub open spec fn view_nums(s: Seq<i64>) -> Seq<int> {
    s.map_values(|n: i64| n as int)
}

/// The numbers of this repository's locally open issues, in table order.
#[verifier::loop_isolation(false)]
pub fn open_issue_numbers(store: &Store, repo: &str) -> (r: Vec<i64>)
    ensures
        view_nums(r@) == numbers_of(store@.issues.filter(open_issue_pred(repo@))),
{
    broadcast use vstd::seq::Seq::lemma_filter_push;

    let ghost pred = open_issue_pred(repo@);
    let n = store.issues.len();
    let mut out: Vec<i64> = Vec::new();
    let mut i: usize = 0;
    while i < n
        invariant
            i <= n,
            n == store@.issues.len(),
            view_nums(out@) =~= numbers_of(store@.issues.take(i as int).filter(pred)),
            pred == open_issue_pred(repo@),
        decreases n - i,
    {
        proof {
            let t = store@.issues;
            assert(t.take(i + 1) =~= t.take(i as int).push(t[i as int]));
            t.take(i as int).lemma_filter_push(t[i as int], pred);
        }
        let row = &store.issues[i];
        let is_open = matches!(row.state, IssueState::Open) && row.closed_at.is_none()
            && row.deleted_at.is_none();
        if is_open && str_eq(row.repo.as_str(), repo) {
            proof {
                let t = store@.issues;
                let f = t.take(i as int).filter(pred).push(t[i as int]);
                assert(view_nums(out@.push(row.number)) =~= numbers_of(f)) by {
                    assert(numbers_of(f) =~= numbers_of(t.take(i as int).filter(pred)).push(
                        t[i as int].number,
                    ));
                }
            }
            out.push(row.number);
        }
        i += 1;
    }
    proof {
        assert(store@.issues.take(n as int) =~= store@.issues);
    }
    out
}

/// Whether one of the numbers equals `x`.
#[verifier::loop_isolation(false)]
pub fn contains_num(v: &Vec<i64>, x: i64) -> (r: bool)
    ensures
        r == v@.contains(x),
{
    let n = v.len();
    let mut i: usize = 0;
    while i < n
        invariant
            i <= n,
            forall|j: int| 0 <= j < i ==> v@[j] != x,
        decreases n - i,
    {
        if v[i] == x {
            return true;
        }
        i += 1;
    }
    false
}

/// Numbers absent from the remote set.
pub open spec fn absent_pred(remote: Seq<i64>) -> spec_fn(i64) -> bool {
    |n: i64| !remote.contains(n)
}

/// The locally open numbers the remote open set no longer lists: these
/// are probed one by one.
#[verifier::loop_isolation(false)]
pub fn missing_from_remote(local: &Vec<i64>, remote: &Vec<i64>) -> (r: Vec<i64>)
    ensures
        r@ == local@.filter(absent_pred(remote@)),
{
    let ghost pred = absent_pred(remote@);
    let n = local.len();
    let mut out: Vec<i64> = Vec::new();
    let mut i: usize = 0;
    while i < n
        invariant
            i <= n,
            out@ =~= local@.take(i as int).filter(pred),
            pred == absent_pred(remote@),
        decreases n - i,
    {
        proof {
            assert(local@.take(i + 1) =~= local@.take(i as int).push(local@[i as int]));
            local@.take(i as int).lemma_filter_push(local@[i as int], pred);
        }
        if !contains_num(remote, local[i]) {
            out.push(local[i]);
        }
        i += 1;
    }
    proof {
        assert(local@.take(n as int) =~= local@);
    }
    out
}

/// The state a probe payload reports; an absent state means closed.
pub open spec fn spec_probe_state(state: Option<String>) -> IssueState {
    match state {
        Some(x) => if x@ == "open"@ {
            IssueState::Open
        } else if x@ == "closed"@ {
            IssueState::Closed
        } else {
            IssueState::Unknown
        },
        None => IssueState::Closed,
    }
}

/// The row a probe outcome turns an issue row into. A row of another
/// repository or number, or one already deleted, is untouched; a found
/// issue takes the fresh state and closing instant; a gone issue becomes
/// `Deleted` with the sweep's clock as its deletion instant — terminally.
pub open spec fn spec_probe_row(
    r: IssueRowV,
    repo: Seq<char>,
    number: int,
    probe: IssueProbe,
    now: i64,
) -> IssueRowV {
    if r.repo == repo && r.number == number && r.state != IssueState::Deleted {
        match probe {
            IssueProbe::Found { state, closed_at } => IssueRowV {
                state: spec_probe_state(state),
                closed_at: match closed_at {
                    Some(c) => rfc3339_secs(c@),
                    None => None,
                },
                ..r
            },
            IssueProbe::Gone => IssueRowV {
                state: IssueState::Deleted,
                deleted_at: Some(now),
                ..r
            },
        }
    } else {
        r
    }
}

/// Apply one probe outcome to the store. Every row of the repository with
/// this number is rewritten as `spec_probe_row` says; rows already in the
/// terminal `Deleted` state are never reverted.
#[verifier::loop_isolation(false)]
pub fn apply_probe(store: &mut Store, repo: &str, number: i64, probe: &IssueProbe, now: i64)
    requires
        ts_in_range(now),
    ensures
        final(store)@.issues.len() == old(store)@.issues.len(),
        forall|j: int|
            0 <= j < old(store)@.issues.len() ==> final(store)@.issues[j] == spec_probe_row(
                #[trigger] old(store)@.issues[j],
                repo@,
                number as int,
                *probe,
                now,
            ),
        final(store)@ =~= (StoreV { issues: final(store)@.issues, ..old(store)@ }),
        old(store)@.wf() ==> final(store)@.wf(),
        forall|j: int|
            0 <= j < old(store)@.issues.len() && (#[trigger] old(store)@.issues[j]).state
                == IssueState::Deleted ==> final(store)@.issues[j].state == IssueState::Deleted,
{
    let n = store.issues.len();
    let mut i: usize = 0;
    while i < n
        invariant
            i <= n,
            n == store.issues@.len(),
            store@ =~= (StoreV { issues: store@.issues, ..old(store)@ }),
            store@.issues.len() == old(store)@.issues.len(),
            forall|j: int|
                0 <= j < i ==> store@.issues[j] == spec_probe_row(
                    #[trigger] old(store)@.issues[j],
                    repo@,
                    number as int,
                    *probe,
                    now,
                ),
            forall|j: int| i <= j < n ==> store@.issues[j] == old(store)@.issues[j],
            forall|j: int|
                0 <= j < i && crate::store::issue_ts_wf(#[trigger] old(store)@.issues[j])
                    ==> crate::store::issue_ts_wf(store@.issues[j]),
        decreases n - i,
    {
        let touch = store.issues[i].number == number && !matches!(
            store.issues[i].state,
            IssueState::Deleted,
        ) && str_eq(store.issues[i].repo.as_str(), repo);
        if touch {
            let cur = &store.issues[i];
            let updated: IssueRow = match probe {
                IssueProbe::Found { state, closed_at } => {
                    let new_state = probe_state_of(state);
                    let new_closed = match closed_at {
                        Some(c) => crate::time::parse_rfc3339_secs(c.as_str()),
                        None => None,
                    };
                    IssueRow {
                        id: cur.id,
                        repo: cur.repo.clone(),
                        number: cur.number,
                        state: new_state,
                        author: cur.author.clone(),
                        title: cur.title.clone(),
                        created_at: cur.created_at,
                        updated_at: cur.updated_at,
                        closed_at: new_closed,
                        deleted_at: cur.deleted_at,
                        payload: cur.payload.clone(),
                    }
                },
                IssueProbe::Gone => {
                    IssueRow {
                        id: cur.id,
                        repo: cur.repo.clone(),
                        number: cur.number,
                        state: IssueState::Deleted,
                        author: cur.author.clone(),
                        title: cur.title.clone(),
                        created_at: cur.created_at,
                        updated_at: cur.updated_at,
                        closed_at: cur.closed_at,
                        deleted_at: Some(now),
                        payload: cur.payload.clone(),
                    }
                },
            };
            proof {
                crate::table::lemma_map_update(
                    store.issues@,
                    |r: IssueRow| r@,
                    i as int,
                    updated,
                );
            }
            store.issues[i] = updated;
        }
        i += 1;
    }
    proof {
        if old(store)@.wf() {
            assert forall|a: int, b: int|
                0 <= a < b < store@.issues.len() implies issue_key()(store@.issues[a])
                != issue_key()(store@.issues[b]) by {
                assert(store@.issues[a].id == old(store)@.issues[a].id);
                assert(store@.issues[b].id == old(store)@.issues[b].id);
            }
            assert forall|j: int|
                0 <= j < store@.issues.len() implies crate::store::issue_ts_wf(
                #[trigger] store@.issues[j],
            ) by {
                assert(crate::store::issue_ts_wf(old(store)@.issues[j]));
            }
        }
    }
}

fn probe_state_of(s: &Option<String>) -> (r: IssueState)
    ensures
        r == spec_probe_state(*s),
{
    match s {
        Some(x) => {
            if str_eq(x.as_str(), "open") {
                IssueState::Open
            } else if str_eq(x.as_str(), "closed") {
                IssueState::Closed
            } else {
                IssueState::Unknown
            }
        },
        None => IssueState::Closed,
    }
}

} // verus!
