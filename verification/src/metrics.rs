//! The aggregation engine: per-day, per-repository metrics derived from
//! the raw tables, recomputed over a trailing dirty window.
//!
//! One row per `(date, repo)`. Counts are exact; summed churn uses a wide
//! accumulator; averaged durations are seconds, `None` when no item
//! qualifies that day (mirroring an aggregate over an empty group). No
//! day's aggregates depend on another day's: each row is a pure function
//! of the raw tables, so recomputation is safe to repeat.

use crate::rows::{
    CommentRowV, CommitRow, CommitRowV, IssueRow, IssueRowV, PrRow, PrRowV, ReviewRowV, StarRow,
    StarRowV, WorkflowRow, WorkflowRowV,
};
use crate::store::{
    commit_ts_wf, issue_ts_wf, pr_ts_wf, star_ts_wf, view_rows, workflow_ts_wf, Store, StoreV,
};
use crate::strutil::str_eq;
use crate::time::{
    day_of, opt_ts_in_range, spec_day_of, spec_day_opt, ts_in_range, DAY_MAX, DAY_MIN, DUR_MAX,
    METRICS_EPOCH_DAY,
};
use vstd::arithmetic::mul::lemma_mul_inequality;
use vstd::prelude::*;

verus! {

/// One derived row of per-day, per-repository aggregates.
#[derive(Debug, Clone, PartialEq)]
pub struct MetricRow {
    /// Day the row describes, as days since the epoch.
    pub date: i64,
    pub repo: String,
    pub prs_opened: usize,
    pub prs_merged: usize,
    pub issues_opened: usize,
    pub issues_closed: usize,
    pub churn_additions: i128,
    pub churn_deletions: i128,
    pub ci_failures: usize,
    pub ci_runs: usize,
    pub stars: usize,
    pub open_items_count: usize,
    pub open_issues_count: usize,
    pub open_prs_count: usize,
    /// Average seconds from creation to first qualifying response, over
    /// items created this day that have one.
    pub time_to_first_response: Option<i64>,
    /// Average seconds from creation to closure, over issues closed this
    /// day.
    pub avg_issue_resolution_time: Option<i64>,
    /// Average seconds from creation to merge or closure, over pull
    /// requests resolved this day.
    pub avg_pr_resolution_time: Option<i64>,
    /// Average seconds from creation to merge, over pull requests merged
    /// this day by an internal author.
    pub time_to_merge_internal: Option<i64>,
    /// Average seconds from creation to merge, over pull requests merged
    /// this day by an external author.
    pub time_to_merge_external: Option<i64>,
}

#[verifier::ext_equal]
pub struct MetricRowV {
    pub date: int,
    pub repo: Seq<char>,
    pub prs_opened: int,
    pub prs_merged: int,
    pub issues_opened: int,
    pub issues_closed: int,
    pub churn_additions: int,
    pub churn_deletions: int,
    pub ci_failures: int,
    pub ci_runs: int,
    pub stars: int,
    pub open_items_count: int,
    pub open_issues_count: int,
    pub open_prs_count: int,
    pub time_to_first_response: Option<int>,
    pub avg_issue_resolution_time: Option<int>,
    pub avg_pr_resolution_time: Option<int>,
    pub time_to_merge_internal: Option<int>,
    pub time_to_merge_external: Option<int>,
}

/// The view of an optional bounded integer.
pub open spec fn opt_int(v: Option<i64>) -> Option<int> {
    match v {
        Some(x) => Some(x as int),
        None => None,
    }
}

impl View for MetricRow {
    type V = MetricRowV;

    open spec fn view(&self) -> MetricRowV {
        MetricRowV {
            date: self.date as int,
            repo: self.repo@,
            prs_opened: self.prs_opened as int,
            prs_merged: self.prs_merged as int,
            issues_opened: self.issues_opened as int,
            issues_closed: self.issues_closed as int,
            churn_additions: self.churn_additions as int,
            churn_deletions: self.churn_deletions as int,
            ci_failures: self.ci_failures as int,
            ci_runs: self.ci_runs as int,
            stars: self.stars as int,
            open_items_count: self.open_items_count as int,
            open_issues_count: self.open_issues_count as int,
            open_prs_count: self.open_prs_count as int,
            time_to_first_response: opt_int(self.time_to_first_response),
            avg_issue_resolution_time: opt_int(self.avg_issue_resolution_time),
            avg_pr_resolution_time: opt_int(self.avg_pr_resolution_time),
            time_to_merge_internal: opt_int(self.time_to_merge_internal),
            time_to_merge_external: opt_int(self.time_to_merge_external),
        }
    }
}

// ---------------------------------------------------------------------------
// Day predicates
// ---------------------------------------------------------------------------

/// The instant falls on day `d`.
pub open spec fn on_day(t: Option<i64>, d: int) -> bool {
    spec_day_opt(t) == Some(d)
}

/// The instant falls on day `d` or earlier.
pub open spec fn by_day(t: Option<i64>, d: int) -> bool {
    match t {
        Some(x) => spec_day_of(x as int) <= d,
        None => false,
    }
}

/// The instant falls strictly after day `d`.
pub open spec fn after_day(t: Option<i64>, d: int) -> bool {
    match t {
        Some(x) => spec_day_of(x as int) > d,
        None => false,
    }
}

/// The value under `Some`, or zero.
pub open spec fn opt_val(t: Option<i64>) -> int {
    match t {
        Some(x) => x as int,
        None => 0,
    }
}

// ---------------------------------------------------------------------------
// Pull-request day statistics
// ---------------------------------------------------------------------------

/// Aggregates of one repository's pull requests for one day.
pub struct PrDayStats {
    pub opened: int,
    pub merged: int,
    pub open_count: int,
    pub res_sum: int,
    pub res_cnt: int,
    pub mi_sum: int,
    pub mi_cnt: int,
    pub me_sum: int,
    pub me_cnt: int,
}

/// Open as of the end of day `d`: created by then and not closed by then.
pub open spec fn pr_open_asof(p: PrRowV, d: int) -> bool {
    by_day(p.created_at, d) && (p.closed_at is None || after_day(p.closed_at, d))
}

/// The instant a pull request was resolved: merged, or else closed.
pub open spec fn pr_resolved_at(p: PrRowV) -> Option<i64> {
    if p.merged_at is Some {
        p.merged_at
    } else {
        p.closed_at
    }
}

/// Counted in the resolution-time average of day `d`.
pub open spec fn counts_pr_resolution(p: PrRowV, d: int) -> bool {
    on_day(pr_resolved_at(p), d) && p.created_at is Some
}

/// An author association naming an internal contributor.
pub open spec fn spec_internal_assoc(a: Option<Seq<char>>) -> bool {
    match a {
        Some(x) => x == "OWNER"@ || x == "MEMBER"@ || x == "COLLABORATOR"@,
        None => false,
    }
}

/// Counted in the internal merge-time average of day `d`.
pub open spec fn counts_merge_internal(p: PrRowV, d: int) -> bool {
    on_day(p.merged_at, d) && p.created_at is Some && spec_internal_assoc(p.author_association)
}

/// Counted in the external merge-time average of day `d`.
pub open spec fn counts_merge_external(p: PrRowV, d: int) -> bool {
    on_day(p.merged_at, d) && p.created_at is Some && p.author_association is Some
        && !spec_internal_assoc(p.author_association)
}

/// A merged pull request contributes to at most one of the two merge-time
/// buckets, by its author's association; one with no recorded association
/// contributes to neither.
pub proof fn lemma_merge_split(p: PrRowV, d: int)
    ensures
        !(counts_merge_internal(p, d) && counts_merge_external(p, d)),
        counts_merge_internal(p, d) || counts_merge_external(p, d) <==> on_day(p.merged_at, d)
            && p.created_at is Some && p.author_association is Some,
{
}

/// The pull-request aggregates of `(repo, d)` over a table prefix.
pub open spec fn pr_day_stats(prs: Seq<PrRowV>, repo: Seq<char>, d: int) -> PrDayStats
    decreases prs.len(),
{
    if prs.len() == 0 {
        PrDayStats {
            opened: 0,
            merged: 0,
            open_count: 0,
            res_sum: 0,
            res_cnt: 0,
            mi_sum: 0,
            mi_cnt: 0,
            me_sum: 0,
            me_cnt: 0,
        }
    } else {
        let r = pr_day_stats(prs.drop_last(), repo, d);
        let p = prs.last();
        if p.repo != repo {
            r
        } else {
            PrDayStats {
                opened: r.opened + if on_day(p.created_at, d) {
                    1int
                } else {
                    0int
                },
                merged: r.merged + if on_day(p.merged_at, d) {
                    1int
                } else {
                    0int
                },
                open_count: r.open_count + if pr_open_asof(p, d) {
                    1int
                } else {
                    0int
                },
                res_sum: r.res_sum + if counts_pr_resolution(p, d) {
                    opt_val(pr_resolved_at(p)) - opt_val(p.created_at)
                } else {
                    0int
                },
                res_cnt: r.res_cnt + if counts_pr_resolution(p, d) {
                    1int
                } else {
                    0int
                },
                mi_sum: r.mi_sum + if counts_merge_internal(p, d) {
                    opt_val(p.merged_at) - opt_val(p.created_at)
                } else {
                    0int
                },
                mi_cnt: r.mi_cnt + if counts_merge_internal(p, d) {
                    1int
                } else {
                    0int
                },
                me_sum: r.me_sum + if counts_merge_external(p, d) {
                    opt_val(p.merged_at) - opt_val(p.created_at)
                } else {
                    0int
                },
                me_cnt: r.me_cnt + if counts_merge_external(p, d) {
                    1int
                } else {
                    0int
                },
            }
        }
    }
}

struct PrStats {
    opened: usize,
    merged: usize,
    open_count: usize,
    res_sum: i128,
    res_cnt: usize,
    mi_sum: i128,
    mi_cnt: usize,
    me_sum: i128,
    me_cnt: usize,
}

#[verifier::loop_isolation(false)]
#[verifier::rlimit(60)]
fn pr_stats(prs: &Vec<PrRow>, repo: &str, d: i64) -> (r: PrStats)
    requires
        forall|i: int| 0 <= i < prs@.len() ==> pr_ts_wf(#[trigger] view_rows(prs@)[i]),
    ensures
        r.opened as int == pr_day_stats(view_rows(prs@), repo@, d as int).opened,
        r.merged as int == pr_day_stats(view_rows(prs@), repo@, d as int).merged,
        r.open_count as int == pr_day_stats(view_rows(prs@), repo@, d as int).open_count,
        r.res_sum as int == pr_day_stats(view_rows(prs@), repo@, d as int).res_sum,
        r.res_cnt as int == pr_day_stats(view_rows(prs@), repo@, d as int).res_cnt,
        r.mi_sum as int == pr_day_stats(view_rows(prs@), repo@, d as int).mi_sum,
        r.mi_cnt as int == pr_day_stats(view_rows(prs@), repo@, d as int).mi_cnt,
        r.me_sum as int == pr_day_stats(view_rows(prs@), repo@, d as int).me_sum,
        r.me_cnt as int == pr_day_stats(view_rows(prs@), repo@, d as int).me_cnt,
        r.open_count as int <= prs@.len(),
        r.res_cnt as int <= prs@.len(),
        r.mi_cnt as int <= prs@.len(),
        r.me_cnt as int <= prs@.len(),
        -(r.res_cnt as int) * (DUR_MAX as int) <= r.res_sum as int <= (r.res_cnt as int) * (
        DUR_MAX as int),
        -(r.mi_cnt as int) * (DUR_MAX as int) <= r.mi_sum as int <= (r.mi_cnt as int) * (
        DUR_MAX as int),
        -(r.me_cnt as int) * (DUR_MAX as int) <= r.me_sum as int <= (r.me_cnt as int) * (
        DUR_MAX as int),
{
    let ghost rows = view_rows(prs@);
    let n = prs.len();
    let mut st = PrStats {
        opened: 0,
        merged: 0,
        open_count: 0,
        res_sum: 0,
        res_cnt: 0,
        mi_sum: 0,
        mi_cnt: 0,
        me_sum: 0,
        me_cnt: 0,
    };
    let mut i: usize = 0;
    while i < n
        invariant
            i <= n,
            st.opened as int == pr_day_stats(rows.take(i as int), repo@, d as int).opened,
            st.merged as int == pr_day_stats(rows.take(i as int), repo@, d as int).merged,
            st.open_count as int == pr_day_stats(rows.take(i as int), repo@, d as int).open_count,
            st.res_sum as int == pr_day_stats(rows.take(i as int), repo@, d as int).res_sum,
            st.res_cnt as int == pr_day_stats(rows.take(i as int), repo@, d as int).res_cnt,
            st.mi_sum as int == pr_day_stats(rows.take(i as int), repo@, d as int).mi_sum,
            st.mi_cnt as int == pr_day_stats(rows.take(i as int), repo@, d as int).mi_cnt,
            st.me_sum as int == pr_day_stats(rows.take(i as int), repo@, d as int).me_sum,
            st.me_cnt as int == pr_day_stats(rows.take(i as int), repo@, d as int).me_cnt,
            st.opened as int <= i,
            st.merged as int <= i,
            st.open_count as int <= i,
            st.res_cnt as int <= i,
            st.mi_cnt as int <= i,
            st.me_cnt as int <= i,
            -(st.res_cnt as int) * (DUR_MAX as int) <= st.res_sum as int <= (st.res_cnt as int) * (
            DUR_MAX as int),
            -(st.mi_cnt as int) * (DUR_MAX as int) <= st.mi_sum as int <= (st.mi_cnt as int) * (
            DUR_MAX as int),
            -(st.me_cnt as int) * (DUR_MAX as int) <= st.me_sum as int <= (st.me_cnt as int) * (
            DUR_MAX as int),
        decreases n - i,
    {
        proof {
            assert(rows.take(i + 1).drop_last() =~= rows.take(i as int));
            assert(rows.take(i + 1).last() == rows[i as int]);
            lemma_mul_inequality(st.res_cnt as int + 1, 0xFFFF_FFFF_FFFF_FFFF, DUR_MAX as int);
            lemma_mul_inequality(st.mi_cnt as int + 1, 0xFFFF_FFFF_FFFF_FFFF, DUR_MAX as int);
            lemma_mul_inequality(st.me_cnt as int + 1, 0xFFFF_FFFF_FFFF_FFFF, DUR_MAX as int);
            assert(0xFFFF_FFFF_FFFF_FFFF * (DUR_MAX as int) < i128::MAX);
        }
        let p = &prs[i];
        if str_eq(p.repo.as_str(), repo) {
            let created_day: Option<i64> = match p.created_at {
                Some(t) => Some(day_of(t)),
                None => None,
            };
            let merged_day: Option<i64> = match p.merged_at {
                Some(t) => Some(day_of(t)),
                None => None,
            };
            let closed_day: Option<i64> = match p.closed_at {
                Some(t) => Some(day_of(t)),
                None => None,
            };
            if matches!(created_day, Some(x) if x == d) {
                st.opened += 1;
            }
            if matches!(merged_day, Some(x) if x == d) {
                st.merged += 1;
            }
            let created_by = match created_day {
                Some(x) => x <= d,
                None => false,
            };
            let closed_after = match closed_day {
                Some(x) => x > d,
                None => false,
            };
            if created_by && (p.closed_at.is_none() || closed_after) {
                st.open_count += 1;
            }
            let resolved_at: Option<i64> = if p.merged_at.is_some() {
                p.merged_at
            } else {
                p.closed_at
            };
            let resolved_day: Option<i64> = match resolved_at {
                Some(t) => Some(day_of(t)),
                None => None,
            };
            if matches!(resolved_day, Some(x) if x == d) && p.created_at.is_some() {
                let rt: i64 = match resolved_at {
                    Some(t) => t,
                    None => 0,
                };
                let ct: i64 = match p.created_at {
                    Some(t) => t,
                    None => 0,
                };
                st.res_sum += (rt - ct) as i128;
                st.res_cnt += 1;
            }
            if matches!(merged_day, Some(x) if x == d) && p.created_at.is_some() {
                let internal = match &p.author_association {
                    Some(a) => str_eq(a.as_str(), "OWNER") || str_eq(a.as_str(), "MEMBER")
                        || str_eq(a.as_str(), "COLLABORATOR"),
                    None => false,
                };
                let mt: i64 = match p.merged_at {
                    Some(t) => t,
                    None => 0,
                };
                let ct: i64 = match p.created_at {
                    Some(t) => t,
                    None => 0,
                };
                if internal {
                    st.mi_sum += (mt - ct) as i128;
                    st.mi_cnt += 1;
                } else if p.author_association.is_some() {
                    st.me_sum += (mt - ct) as i128;
                    st.me_cnt += 1;
                }
            }
        }
        i += 1;
    }
    proof {
        assert(rows.take(n as int) =~= rows);
    }
    st
}

// ---------------------------------------------------------------------------
// Issue day statistics
// ---------------------------------------------------------------------------

/// Aggregates of one repository's issues for one day.
pub struct IssueDayStats {
    pub opened: int,
    pub closed: int,
    pub open_count: int,
    pub res_sum: int,
    pub res_cnt: int,
}

/// Open as of the end of day `d`.
pub open spec fn issue_open_asof(r: IssueRowV, d: int) -> bool {
    by_day(r.created_at, d) && (r.closed_at is None || after_day(r.closed_at, d))
}

/// Counted in the issue resolution-time average of day `d`.
pub open spec fn counts_issue_resolution(r: IssueRowV, d: int) -> bool {
    on_day(r.closed_at, d) && r.created_at is Some
}

/// The issue aggregates of `(repo, d)` over a table prefix.
pub open spec fn issue_day_stats(issues: Seq<IssueRowV>, repo: Seq<char>, d: int) -> IssueDayStats
    decreases issues.len(),
{
    if issues.len() == 0 {
        IssueDayStats { opened: 0, closed: 0, open_count: 0, res_sum: 0, res_cnt: 0 }
    } else {
        let r = issue_day_stats(issues.drop_last(), repo, d);
        let p = issues.last();
        if p.repo != repo {
            r
        } else {
            IssueDayStats {
                opened: r.opened + if on_day(p.created_at, d) {
                    1int
                } else {
                    0int
                },
                closed: r.closed + if on_day(p.closed_at, d) {
                    1int
                } else {
                    0int
                },
                open_count: r.open_count + if issue_open_asof(p, d) {
                    1int
                } else {
                    0int
                },
                res_sum: r.res_sum + if counts_issue_resolution(p, d) {
                    opt_val(p.closed_at) - opt_val(p.created_at)
                } else {
                    0int
                },
                res_cnt: r.res_cnt + if counts_issue_resolution(p, d) {
                    1int
                } else {
                    0int
                },
            }
        }
    }
}

struct IssueStats {
    opened: usize,
    closed: usize,
    open_count: usize,
    res_sum: i128,
    res_cnt: usize,
}

#[verifier::loop_isolation(false)]
fn issue_stats(issues: &Vec<IssueRow>, repo: &str, d: i64) -> (r: IssueStats)
    requires
        forall|i: int| 0 <= i < issues@.len() ==> issue_ts_wf(#[trigger] view_rows(issues@)[i]),
    ensures
        r.opened as int == issue_day_stats(view_rows(issues@), repo@, d as int).opened,
        r.closed as int == issue_day_stats(view_rows(issues@), repo@, d as int).closed,
        r.open_count as int == issue_day_stats(view_rows(issues@), repo@, d as int).open_count,
        r.res_sum as int == issue_day_stats(view_rows(issues@), repo@, d as int).res_sum,
        r.res_cnt as int == issue_day_stats(view_rows(issues@), repo@, d as int).res_cnt,
        r.open_count as int <= issues@.len(),
        r.res_cnt as int <= issues@.len(),
        -(r.res_cnt as int) * (DUR_MAX as int) <= r.res_sum as int <= (r.res_cnt as int) * (
        DUR_MAX as int),
{
    let ghost rows = view_rows(issues@);
    let n = issues.len();
    let mut st = IssueStats { opened: 0, closed: 0, open_count: 0, res_sum: 0, res_cnt: 0 };
    let mut i: usize = 0;
    while i < n
        invariant
            i <= n,
            st.opened as int == issue_day_stats(rows.take(i as int), repo@, d as int).opened,
            st.closed as int == issue_day_stats(rows.take(i as int), repo@, d as int).closed,
            st.open_count as int == issue_day_stats(
                rows.take(i as int),
                repo@,
                d as int,
            ).open_count,
            st.res_sum as int == issue_day_stats(rows.take(i as int), repo@, d as int).res_sum,
            st.res_cnt as int == issue_day_stats(rows.take(i as int), repo@, d as int).res_cnt,
            st.opened as int <= i,
            st.closed as int <= i,
            st.open_count as int <= i,
            st.res_cnt as int <= i,
            -(st.res_cnt as int) * (DUR_MAX as int) <= st.res_sum as int <= (st.res_cnt as int) * (
            DUR_MAX as int),
        decreases n - i,
    {
        proof {
            assert(rows.take(i + 1).drop_last() =~= rows.take(i as int));
            assert(rows.take(i + 1).last() == rows[i as int]);
            lemma_mul_inequality(st.res_cnt as int + 1, 0xFFFF_FFFF_FFFF_FFFF, DUR_MAX as int);
            assert(0xFFFF_FFFF_FFFF_FFFF * (DUR_MAX as int) < i128::MAX);
        }
        let p = &issues[i];
        if str_eq(p.repo.as_str(), repo) {
            let created_day: Option<i64> = match p.created_at {
                Some(t) => Some(day_of(t)),
                None => None,
            };
            let closed_day: Option<i64> = match p.closed_at {
                Some(t) => Some(day_of(t)),
                None => None,
            };
            if matches!(created_day, Some(x) if x == d) {
                st.opened += 1;
            }
            if matches!(closed_day, Some(x) if x == d) {
                st.closed += 1;
            }
            let created_by = match created_day {
                Some(x) => x <= d,
                None => false,
            };
            let closed_after = match closed_day {
                Some(x) => x > d,
                None => false,
            };
            if created_by && (p.closed_at.is_none() || closed_after) {
                st.open_count += 1;
            }
            if matches!(closed_day, Some(x) if x == d) && p.created_at.is_some() {
                let rt: i64 = match p.closed_at {
                    Some(t) => t,
                    None => 0,
                };
                let ct: i64 = match p.created_at {
                    Some(t) => t,
                    None => 0,
                };
                st.res_sum += (rt - ct) as i128;
                st.res_cnt += 1;
            }
        }
        i += 1;
    }
    proof {
        assert(rows.take(n as int) =~= rows);
    }
    st
}

// ---------------------------------------------------------------------------
// Commit, workflow and star day statistics
// ---------------------------------------------------------------------------

/// Summed churn of one repository's commits for one day.
pub struct ChurnStats {
    pub additions: int,
    pub deletions: int,
}

/// The churn of `(repo, d)` over a table prefix.
pub open spec fn churn_day_stats(commits: Seq<CommitRowV>, repo: Seq<char>, d: int) -> ChurnStats
    decreases commits.len(),
{
    if commits.len() == 0 {
        ChurnStats { additions: 0, deletions: 0 }
    } else {
        let r = churn_day_stats(commits.drop_last(), repo, d);
        let c = commits.last();
        if c.repo == repo && on_day(c.date, d) {
            ChurnStats {
                additions: r.additions + c.additions as int,
                deletions: r.deletions + c.deletions as int,
            }
        } else {
            r
        }
    }
}

#[verifier::loop_isolation(false)]
fn churn_stats(commits: &Vec<CommitRow>, repo: &str, d: i64) -> (r: (i128, i128))
    requires
        forall|i: int| 0 <= i < commits@.len() ==> commit_ts_wf(#[trigger] view_rows(commits@)[i]),
    ensures
        r.0 as int == churn_day_stats(view_rows(commits@), repo@, d as int).additions,
        r.1 as int == churn_day_stats(view_rows(commits@), repo@, d as int).deletions,
{
    let ghost rows = view_rows(commits@);
    let n = commits.len();
    let mut adds: i128 = 0;
    let mut dels: i128 = 0;
    let mut i: usize = 0;
    while i < n
        invariant
            i <= n,
            adds as int == churn_day_stats(rows.take(i as int), repo@, d as int).additions,
            dels as int == churn_day_stats(rows.take(i as int), repo@, d as int).deletions,
            -(i as int) * (i64::MAX as int + 1) <= adds as int <= (i as int) * (i64::MAX as int),
            -(i as int) * (i64::MAX as int + 1) <= dels as int <= (i as int) * (i64::MAX as int),
        decreases n - i,
    {
        proof {
            assert(rows.take(i + 1).drop_last() =~= rows.take(i as int));
            assert(rows.take(i + 1).last() == rows[i as int]);
            lemma_mul_inequality(i as int + 1, 0xFFFF_FFFF_FFFF_FFFF, i64::MAX as int);
            lemma_mul_inequality(i as int + 1, 0xFFFF_FFFF_FFFF_FFFF, i64::MAX as int + 1);
            assert(0xFFFF_FFFF_FFFF_FFFF * (i64::MAX as int + 1) < i128::MAX);
        }
        let c = &commits[i];
        let day_match = match c.date {
            Some(t) => day_of(t) == d,
            None => false,
        };
        if day_match && str_eq(c.repo.as_str(), repo) {
            adds += c.additions as i128;
            dels += c.deletions as i128;
        }
        i += 1;
    }
    proof {
        assert(rows.take(n as int) =~= rows);
    }
    (adds, dels)
}

/// Run and failure counts of one repository's workflow runs for one day.
pub struct CiStats {
    pub runs: int,
    pub failures: int,
}

/// The run counts of `(repo, d)` over a table prefix.
pub open spec fn ci_day_stats(runs: Seq<WorkflowRowV>, repo: Seq<char>, d: int) -> CiStats
    decreases runs.len(),
{
    if runs.len() == 0 {
        CiStats { runs: 0, failures: 0 }
    } else {
        let r = ci_day_stats(runs.drop_last(), repo, d);
        let w = runs.last();
        if w.repo == repo && on_day(w.created_at, d) {
            CiStats {
                runs: r.runs + 1,
                failures: r.failures + if w.conclusion == "failure"@ {
                    1int
                } else {
                    0int
                },
            }
        } else {
            r
        }
    }
}

#[verifier::loop_isolation(false)]
fn ci_stats(runs: &Vec<WorkflowRow>, repo: &str, d: i64) -> (r: (usize, usize))
    requires
        forall|i: int| 0 <= i < runs@.len() ==> workflow_ts_wf(#[trigger] view_rows(runs@)[i]),
    ensures
        r.0 as int == ci_day_stats(view_rows(runs@), repo@, d as int).runs,
        r.1 as int == ci_day_stats(view_rows(runs@), repo@, d as int).failures,
{
    let ghost rows = view_rows(runs@);
    let n = runs.len();
    let mut total: usize = 0;
    let mut failures: usize = 0;
    let mut i: usize = 0;
    while i < n
        invariant
            i <= n,
            total as int == ci_day_stats(rows.take(i as int), repo@, d as int).runs,
            failures as int == ci_day_stats(rows.take(i as int), repo@, d as int).failures,
            total as int <= i,
            failures as int <= i,
        decreases n - i,
    {
        proof {
            assert(rows.take(i + 1).drop_last() =~= rows.take(i as int));
            assert(rows.take(i + 1).last() == rows[i as int]);
        }
        let w = &runs[i];
        let day_match = match w.created_at {
            Some(t) => day_of(t) == d,
            None => false,
        };
        if day_match && str_eq(w.repo.as_str(), repo) {
            total += 1;
            if str_eq(w.conclusion.as_str(), "failure") {
                failures += 1;
            }
        }
        i += 1;
    }
    proof {
        assert(rows.take(n as int) =~= rows);
    }
    (total, failures)
}

/// The cumulative star count of `(repo, d)` over a table prefix: stars
/// granted on or before day `d`.
pub open spec fn star_count(stars: Seq<StarRowV>, repo: Seq<char>, d: int) -> int
    decreases stars.len(),
{
    if stars.len() == 0 {
        0
    } else {
        star_count(stars.drop_last(), repo, d) + if stars.last().repo == repo && by_day(
            stars.last().starred_at,
            d,
        ) {
            1int
        } else {
            0int
        }
    }
}

#[verifier::loop_isolation(false)]
fn star_stats(stars: &Vec<StarRow>, repo: &str, d: i64) -> (r: usize)
    requires
        forall|i: int| 0 <= i < stars@.len() ==> star_ts_wf(#[trigger] view_rows(stars@)[i]),
    ensures
        r as int == star_count(view_rows(stars@), repo@, d as int),
{
    let ghost rows = view_rows(stars@);
    let n = stars.len();
    let mut count: usize = 0;
    let mut i: usize = 0;
    while i < n
        invariant
            i <= n,
            count as int == star_count(rows.take(i as int), repo@, d as int),
            count as int <= i,
        decreases n - i,
    {
        proof {
            assert(rows.take(i + 1).drop_last() =~= rows.take(i as int));
            assert(rows.take(i + 1).last() == rows[i as int]);
        }
        let s = &stars[i];
        let by = match s.starred_at {
            Some(t) => day_of(t) <= d,
            None => false,
        };
        if by && str_eq(s.repo.as_str(), repo) {
            count += 1;
        }
        i += 1;
    }
    proof {
        assert(rows.take(n as int) =~= rows);
    }
    count
}

// ---------------------------------------------------------------------------
// Response times: the once-per-run ephemeral index
// ---------------------------------------------------------------------------

/// One potential response: a comment, review or review comment, reduced to
/// what the join needs.
#[derive(Debug, Clone, PartialEq)]
pub struct Activity {
    pub repo: String,
    pub number: i64,
    pub author: String,
    pub at: Option<i64>,
}

#[verifier::ext_equal]
pub struct ActivityV {
    pub repo: Seq<char>,
    pub number: int,
    pub author: Seq<char>,
    pub at: Option<i64>,
}

impl View for Activity {
    type V = ActivityV;

    open spec fn view(&self) -> ActivityV {
        ActivityV {
            repo: self.repo@,
            number: self.number as int,
            author: self.author@,
            at: self.at,
        }
    }
}

/// One item awaiting a response: an issue or a pull request.
#[derive(Debug, Clone, PartialEq)]
pub struct Parent {
    pub repo: String,
    pub number: i64,
    pub author: String,
    pub created_at: Option<i64>,
}

#[verifier::ext_equal]
pub struct ParentV {
    pub repo: Seq<char>,
    pub number: int,
    pub author: Seq<char>,
    pub created_at: Option<i64>,
}

impl View for Parent {
    type V = ParentV;

    open spec fn view(&self) -> ParentV {
        ParentV {
            repo: self.repo@,
            number: self.number as int,
            author: self.author@,
            created_at: self.created_at,
        }
    }
}

/// One row of the ephemeral index: an item's repository, the day it was
/// created, and the seconds until its first qualifying response.
#[derive(Debug, Clone, PartialEq)]
pub struct RespEntry {
    pub repo: String,
    pub created_day: i64,
    pub secs: i64,
}

#[verifier::ext_equal]
pub struct RespEntryV {
    pub repo: Seq<char>,
    pub created_day: int,
    pub secs: int,
}

impl View for RespEntry {
    type V = RespEntryV;

    open spec fn view(&self) -> RespEntryV {
        RespEntryV {
            repo: self.repo@,
            created_day: self.created_day as int,
            secs: self.secs as int,
        }
    }
}

/// An issue comment as a potential response.
pub open spec fn comment_act_fn() -> spec_fn(CommentRowV) -> ActivityV {
    |c: CommentRowV|
        ActivityV { repo: c.repo, number: c.parent_number, author: c.author, at: c.created_at }
}

/// A review as a potential response.
pub open spec fn review_act_fn() -> spec_fn(ReviewRowV) -> ActivityV {
    |r: ReviewRowV| ActivityV { repo: r.repo, number: r.pr_number, author: r.author, at: r.submitted_at }
}

/// Every potential response in the store, in table order: issue comments,
/// then reviews, then review comments.
pub open spec fn activities_of(s: StoreV) -> Seq<ActivityV> {
    s.issue_comments.map_values(comment_act_fn()) + s.pr_reviews.map_values(review_act_fn())
        + s.pr_review_comments.map_values(comment_act_fn())
}

/// An issue as an item awaiting response.
pub open spec fn issue_parent_fn() -> spec_fn(IssueRowV) -> ParentV {
    |r: IssueRowV|
        ParentV { repo: r.repo, number: r.number, author: r.author, created_at: r.created_at }
}

/// A pull request as an item awaiting response.
pub open spec fn pr_parent_fn() -> spec_fn(PrRowV) -> ParentV {
    |p: PrRowV| ParentV { repo: p.repo, number: p.number, author: p.author, created_at: p.created_at }
}

/// Every item awaiting response, in table order: issues, then pull
/// requests.
pub open spec fn parents_of(s: StoreV) -> Seq<ParentV> {
    s.issues.map_values(issue_parent_fn()) + s.prs.map_values(pr_parent_fn())
}

/// A qualifying response: same repository and item number, a different
/// author, strictly after the item's creation.
pub open spec fn qualifies(
    a: ActivityV,
    repo: Seq<char>,
    number: int,
    author: Seq<char>,
    created: i64,
) -> bool {
    &&& a.repo == repo
    &&& a.number == number
    &&& a.author != author
    &&& a.at matches Some(t) && t > created
}

/// The earliest qualifying response instant, if any.
pub open spec fn min_response(
    acts: Seq<ActivityV>,
    repo: Seq<char>,
    number: int,
    author: Seq<char>,
    created: i64,
) -> Option<int>
    decreases acts.len(),
{
    if acts.len() == 0 {
        None
    } else {
        let rest = min_response(acts.drop_last(), repo, number, author, created);
        let a = acts.last();
        if qualifies(a, repo, number, author, created) {
            let t = opt_val(a.at);
            match rest {
                None => Some(t),
                Some(m) => Some(
                    if t < m {
                        t
                    } else {
                        m
                    },
                ),
            }
        } else {
            rest
        }
    }
}

/// The earliest qualifying response to one item.
#[verifier::loop_isolation(false)]
fn first_response(
    acts: &Vec<Activity>,
    repo: &str,
    number: i64,
    author: &str,
    created: i64,
) -> (r: Option<i64>)
    requires
        forall|i: int|
            0 <= i < acts@.len() ==> opt_ts_in_range((#[trigger] view_rows(acts@)[i]).at),
    ensures
        opt_int(r) == min_response(view_rows(acts@), repo@, number as int, author@, created),
        r matches Some(v) ==> ts_in_range(v),
{
    let ghost rows = view_rows(acts@);
    let n = acts.len();
    let mut cur: Option<i64> = None;
    let mut i: usize = 0;
    while i < n
        invariant
            i <= n,
            opt_int(cur) == min_response(rows.take(i as int), repo@, number as int, author@, created),
            cur matches Some(v) ==> ts_in_range(v),
        decreases n - i,
    {
        proof {
            assert(rows.take(i + 1).drop_last() =~= rows.take(i as int));
            assert(rows.take(i + 1).last() == rows[i as int]);
        }
        let a = &acts[i];
        let at_ok = match a.at {
            Some(t) => t > created,
            None => false,
        };
        if at_ok && a.number == number && str_eq(a.repo.as_str(), repo) && !str_eq(
            a.author.as_str(),
            author,
        ) {
            let t: i64 = match a.at {
                Some(t) => t,
                None => 0,
            };
            cur = match cur {
                None => Some(t),
                Some(m) => Some(
                    if t < m {
                        t
                    } else {
                        m
                    },
                ),
            };
        }
        i += 1;
    }
    proof {
        assert(rows.take(n as int) =~= rows);
    }
    cur
}

/// One step of the fold that builds the index.
pub open spec fn resp_step(acts: Seq<ActivityV>) -> spec_fn(Seq<RespEntryV>, ParentV) -> Seq<
    RespEntryV,
> {
    |acc: Seq<RespEntryV>, p: ParentV|
        match p.created_at {
            Some(c) => match min_response(acts, p.repo, p.number, p.author, c) {
                Some(m) => acc.push(
                    RespEntryV { repo: p.repo, created_day: spec_day_of(c as int), secs: m - c },
                ),
                None => acc,
            },
            None => acc,
        }
}

/// The ephemeral index: one entry per item that has a qualifying
/// response, carrying the seconds to the first one.
pub open spec fn resp_entries_spec(s: StoreV) -> Seq<RespEntryV> {
    parents_of(s).fold_left(Seq::empty(), resp_step(activities_of(s)))
}

/// Build the ephemeral index, once per run; it is dropped when the run
/// ends.
#[verifier::loop_isolation(false)]
pub fn build_response_index(store: &Store) -> (r: Vec<RespEntry>)
    requires
        store@.wf(),
    ensures
        view_rows(r@) == resp_entries_spec(store@),
        forall|i: int|
            0 <= i < r@.len() ==> -(DUR_MAX as int) <= (#[trigger] view_rows(r@)[i]).secs
                <= DUR_MAX as int,
{
    let ghost sv = store@;
    // The activity list, in the order `activities_of` fixes.
    let mut acts: Vec<Activity> = Vec::new();
    let n1 = store.issue_comments.len();
    let mut i: usize = 0;
    while i < n1
        invariant
            i <= n1,
            view_rows(acts@) =~= sv.issue_comments.take(i as int).map_values(comment_act_fn()),
            forall|k: int|
                0 <= k < acts@.len() ==> opt_ts_in_range((#[trigger] view_rows(acts@)[k]).at),
        decreases n1 - i,
    {
        let c = &store.issue_comments[i];
        let a = Activity {
            repo: c.repo.clone(),
            number: c.parent_number,
            author: c.author.clone(),
            at: c.created_at,
        };
        proof {
            assert(sv.issue_comments.take(i + 1) =~= sv.issue_comments.take(i as int).push(
                sv.issue_comments[i as int],
            ));
            crate::table::lemma_map_push(
                sv.issue_comments.take(i as int),
                comment_act_fn(),
                sv.issue_comments[i as int],
            );
            assert(view_rows(acts@.push(a)) =~= view_rows(acts@).push(a@));
            assert(a@ =~= comment_act_fn()(sv.issue_comments[i as int]));
        }
        acts.push(a);
        i += 1;
    }
    proof {
        assert(sv.issue_comments.take(n1 as int) =~= sv.issue_comments);
    }
    let ghost part1 = sv.issue_comments.map_values(comment_act_fn());
    let n2 = store.pr_reviews.len();
    let mut i2: usize = 0;
    while i2 < n2
        invariant
            i2 <= n2,
            view_rows(acts@) =~= part1 + sv.pr_reviews.take(i2 as int).map_values(review_act_fn()),
            forall|k: int|
                0 <= k < acts@.len() ==> opt_ts_in_range((#[trigger] view_rows(acts@)[k]).at),
        decreases n2 - i2,
    {
        let c = &store.pr_reviews[i2];
        let a = Activity {
            repo: c.repo.clone(),
            number: c.pr_number,
            author: c.author.clone(),
            at: c.submitted_at,
        };
        proof {
            assert(sv.pr_reviews.take(i2 + 1) =~= sv.pr_reviews.take(i2 as int).push(
                sv.pr_reviews[i2 as int],
            ));
            crate::table::lemma_map_push(
                sv.pr_reviews.take(i2 as int),
                review_act_fn(),
                sv.pr_reviews[i2 as int],
            );
            assert(view_rows(acts@.push(a)) =~= view_rows(acts@).push(a@));
            assert(a@ =~= review_act_fn()(sv.pr_reviews[i2 as int]));
        }
        acts.push(a);
        i2 += 1;
    }
    proof {
        assert(sv.pr_reviews.take(n2 as int) =~= sv.pr_reviews);
    }
    let ghost part2 = part1 + sv.pr_reviews.map_values(review_act_fn());
    let n3 = store.pr_review_comments.len();
    let mut i3: usize = 0;
    while i3 < n3
        invariant
            i3 <= n3,
            view_rows(acts@) =~= part2 + sv.pr_review_comments.take(i3 as int).map_values(
                comment_act_fn(),
            ),
            forall|k: int|
                0 <= k < acts@.len() ==> opt_ts_in_range((#[trigger] view_rows(acts@)[k]).at),
        decreases n3 - i3,
    {
        let c = &store.pr_review_comments[i3];
        let a = Activity {
            repo: c.repo.clone(),
            number: c.parent_number,
            author: c.author.clone(),
            at: c.created_at,
        };
        proof {
            assert(sv.pr_review_comments.take(i3 + 1) =~= sv.pr_review_comments.take(
                i3 as int,
            ).push(sv.pr_review_comments[i3 as int]));
            crate::table::lemma_map_push(
                sv.pr_review_comments.take(i3 as int),
                comment_act_fn(),
                sv.pr_review_comments[i3 as int],
            );
            assert(view_rows(acts@.push(a)) =~= view_rows(acts@).push(a@));
            assert(a@ =~= comment_act_fn()(sv.pr_review_comments[i3 as int]));
        }
        acts.push(a);
        i3 += 1;
    }
    proof {
        assert(sv.pr_review_comments.take(n3 as int) =~= sv.pr_review_comments);
        assert(view_rows(acts@) =~= activities_of(sv));
    }
    // The parent list, in the order `parents_of` fixes.
    let mut parents: Vec<Parent> = Vec::new();
    let m1 = store.issues.len();
    let mut j: usize = 0;
    while j < m1
        invariant
            j <= m1,
            view_rows(parents@) =~= sv.issues.take(j as int).map_values(issue_parent_fn()),
            forall|k: int|
                0 <= k < parents@.len() ==> opt_ts_in_range(
                    (#[trigger] view_rows(parents@)[k]).created_at,
                ),
        decreases m1 - j,
    {
        let c = &store.issues[j];
        let p = Parent {
            repo: c.repo.clone(),
            number: c.number,
            author: c.author.clone(),
            created_at: c.created_at,
        };
        proof {
            assert(sv.issues.take(j + 1) =~= sv.issues.take(j as int).push(sv.issues[j as int]));
            crate::table::lemma_map_push(
                sv.issues.take(j as int),
                issue_parent_fn(),
                sv.issues[j as int],
            );
            assert(view_rows(parents@.push(p)) =~= view_rows(parents@).push(p@));
            assert(p@ =~= issue_parent_fn()(sv.issues[j as int]));
        }
        parents.push(p);
        j += 1;
    }
    proof {
        assert(sv.issues.take(m1 as int) =~= sv.issues);
    }
    let ghost pr_part1 = sv.issues.map_values(issue_parent_fn());
    let m2 = store.prs.len();
    let mut j2: usize = 0;
    while j2 < m2
        invariant
            j2 <= m2,
            view_rows(parents@) =~= pr_part1 + sv.prs.take(j2 as int).map_values(pr_parent_fn()),
            forall|k: int|
                0 <= k < parents@.len() ==> opt_ts_in_range(
                    (#[trigger] view_rows(parents@)[k]).created_at,
                ),
        decreases m2 - j2,
    {
        let c = &store.prs[j2];
        let p = Parent {
            repo: c.repo.clone(),
            number: c.number,
            author: c.author.clone(),
            created_at: c.created_at,
        };
        proof {
            assert(sv.prs.take(j2 + 1) =~= sv.prs.take(j2 as int).push(sv.prs[j2 as int]));
            crate::table::lemma_map_push(
                sv.prs.take(j2 as int),
                pr_parent_fn(),
                sv.prs[j2 as int],
            );
            assert(view_rows(parents@.push(p)) =~= view_rows(parents@).push(p@));
            assert(p@ =~= pr_parent_fn()(sv.prs[j2 as int]));
        }
        parents.push(p);
        j2 += 1;
    }
    proof {
        assert(sv.prs.take(m2 as int) =~= sv.prs);
        assert(view_rows(parents@) =~= parents_of(sv));
    }
    // Fold the parents into the index.
    let ghost pseq = view_rows(parents@);
    let np = parents.len();
    let mut out: Vec<RespEntry> = Vec::new();
    let mut k: usize = 0;
    while k < np
        invariant
            k <= np,
            np == parents@.len(),
            view_rows(out@) =~= pseq.take(k as int).fold_left(
                Seq::<RespEntryV>::empty(),
                resp_step(activities_of(sv)),
            ),
            forall|q: int|
                0 <= q < out@.len() ==> -(DUR_MAX as int) <= (#[trigger] view_rows(out@)[q]).secs
                    <= DUR_MAX as int,
        decreases np - k,
    {
        proof {
            assert(pseq.take(k + 1).drop_last() =~= pseq.take(k as int));
            assert(pseq.take(k + 1).last() == pseq[k as int]);
        }
        let p = &parents[k];
        match p.created_at {
            Some(c) => {
                match first_response(&acts, p.repo.as_str(), p.number, p.author.as_str(), c) {
                    Some(m) => {
                        let day = day_of(c);
                        let secs: i64 = m - c;
                        let e = RespEntry { repo: p.repo.clone(), created_day: day, secs };
                        proof {
                            assert(view_rows(out@.push(e)) =~= view_rows(out@).push(e@));
                        }
                        out.push(e);
                    },
                    None => {},
                }
            },
            None => {},
        }
        k += 1;
    }
    proof {
        assert(pseq.take(np as int) =~= pseq);
    }
    out
}

/// Response-time aggregates of `(repo, d)` over an index prefix.
pub struct RespDayStats {
    pub sum: int,
    pub cnt: int,
}

/// The response-time aggregates of `(repo, d)`.
pub open spec fn resp_day_stats(es: Seq<RespEntryV>, repo: Seq<char>, d: int) -> RespDayStats
    decreases es.len(),
{
    if es.len() == 0 {
        RespDayStats { sum: 0, cnt: 0 }
    } else {
        let r = resp_day_stats(es.drop_last(), repo, d);
        let e = es.last();
        if e.repo == repo && e.created_day == d {
            RespDayStats { sum: r.sum + e.secs, cnt: r.cnt + 1 }
        } else {
            r
        }
    }
}

#[verifier::loop_isolation(false)]
fn resp_stats(entries: &Vec<RespEntry>, repo: &str, d: i64) -> (r: (i128, usize))
    requires
        forall|i: int|
            0 <= i < entries@.len() ==> -(DUR_MAX as int) <= (#[trigger] view_rows(
                entries@,
            )[i]).secs <= DUR_MAX as int,
    ensures
        r.0 as int == resp_day_stats(view_rows(entries@), repo@, d as int).sum,
        r.1 as int == resp_day_stats(view_rows(entries@), repo@, d as int).cnt,
        r.1 as int <= entries@.len(),
        -(r.1 as int) * (DUR_MAX as int) <= r.0 as int <= (r.1 as int) * (DUR_MAX as int),
{
    let ghost rows = view_rows(entries@);
    let n = entries.len();
    let mut sum: i128 = 0;
    let mut cnt: usize = 0;
    let mut i: usize = 0;
    while i < n
        invariant
            i <= n,
            sum as int == resp_day_stats(rows.take(i as int), repo@, d as int).sum,
            cnt as int == resp_day_stats(rows.take(i as int), repo@, d as int).cnt,
            cnt as int <= i,
            -(cnt as int) * (DUR_MAX as int) <= sum as int <= (cnt as int) * (DUR_MAX as int),
        decreases n - i,
    {
        proof {
            assert(rows.take(i + 1).drop_last() =~= rows.take(i as int));
            assert(rows.take(i + 1).last() == rows[i as int]);
            lemma_mul_inequality(cnt as int + 1, 0xFFFF_FFFF_FFFF_FFFF, DUR_MAX as int);
            assert(0xFFFF_FFFF_FFFF_FFFF * (DUR_MAX as int) < i128::MAX);
        }
        let e = &entries[i];
        if e.created_day == d && str_eq(e.repo.as_str(), repo) {
            sum += e.secs as i128;
            cnt += 1;
        }
        i += 1;
    }
    proof {
        assert(rows.take(n as int) =~= rows);
    }
    (sum, cnt)
}

// ---------------------------------------------------------------------------
// Averages
// ---------------------------------------------------------------------------

/// The average of a duration sum, floored; `None` over an empty group.
pub open spec fn spec_avg(sum: int, cnt: int) -> Option<int> {
    if cnt <= 0 {
        None
    } else {
        Some(sum / cnt)
    }
}

/// Average a duration sum over its count.
fn avg_duration(sum: i128, cnt: usize) -> (r: Option<i64>)
    requires
        -(cnt as int) * (DUR_MAX as int) <= sum as int <= (cnt as int) * (DUR_MAX as int),
    ensures
        opt_int(r) == spec_avg(sum as int, cnt as int),
{
    if cnt == 0 {
        return None;
    }
    let b: u128 = cnt as u128;
    proof {
        let c = cnt as int;
        let dm = DUR_MAX as int;
        assert(-c * dm == c * (-dm)) by (nonlinear_arith);
        vstd::arithmetic::div_mod::lemma_div_is_ordered(sum as int, c * dm, c);
        vstd::arithmetic::div_mod::lemma_div_is_ordered(c * (-dm), sum as int, c);
        vstd::arithmetic::div_mod::lemma_div_multiples_vanish(dm, c);
        vstd::arithmetic::div_mod::lemma_div_multiples_vanish(-dm, c);
        assert(-dm <= (sum as int) / c <= dm);
    }
    if sum >= 0 {
        let q: u128 = (sum as u128) / b;
        Some(q as i64)
    } else {
        proof {
            lemma_mul_inequality(cnt as int, 0x1_0000_0000_0000_0000, DUR_MAX as int);
            assert(0x1_0000_0000_0000_0000 * (DUR_MAX as int) < i128::MAX);
        }
        let na: u128 = (-sum) as u128;
        let q0: u128 = na / b;
        let r0: u128 = na % b;
        proof {
            vstd::arithmetic::div_mod::lemma_fundamental_div_mod(na as int, b as int);
            if r0 == 0 {
                assert(sum as int == (-(q0 as int)) * (cnt as int) + 0) by (nonlinear_arith)
                    requires
                        na as int == (b as int) * (q0 as int) + (r0 as int),
                        sum as int == -(na as int),
                        r0 as int == 0,
                        b as int == cnt as int,
                ;
                vstd::arithmetic::div_mod::lemma_fundamental_div_mod_converse(
                    sum as int,
                    cnt as int,
                    -(q0 as int),
                    0,
                );
            } else {
                assert(sum as int == (-(q0 as int) - 1) * (cnt as int) + ((cnt as int) - (
                r0 as int))) by (nonlinear_arith)
                    requires
                        na as int == (b as int) * (q0 as int) + (r0 as int),
                        sum as int == -(na as int),
                        b as int == cnt as int,
                ;
                vstd::arithmetic::div_mod::lemma_fundamental_div_mod_converse(
                    sum as int,
                    cnt as int,
                    -(q0 as int) - 1,
                    (cnt as int) - (r0 as int),
                );
            }
        }
        if r0 == 0 {
            Some(-(q0 as i64))
        } else {
            Some(-(q0 as i64) - 1)
        }
    }
}

// ---------------------------------------------------------------------------
// Active repositories and the dirty window
// ---------------------------------------------------------------------------

/// The repository of a pull-request row.
pub open spec fn pr_repo_fn() -> spec_fn(PrRowV) -> Seq<char> {
    |p: PrRowV| p.repo
}

/// The repository of an issue row.
pub open spec fn issue_repo_fn() -> spec_fn(IssueRowV) -> Seq<char> {
    |r: IssueRowV| r.repo
}

/// The repository of a stargazer row.
pub open spec fn star_repo_fn() -> spec_fn(StarRowV) -> Seq<char> {
    |s: StarRowV| s.repo
}

/// The repository of a commit row.
pub open spec fn commit_repo_fn() -> spec_fn(CommitRowV) -> Seq<char> {
    |c: CommitRowV| c.repo
}

/// Every repository name the raw tables mention, with repetitions, in
/// table order.
pub open spec fn repo_names(s: StoreV) -> Seq<Seq<char>> {
    s.prs.map_values(pr_repo_fn()) + s.issues.map_values(issue_repo_fn())
        + s.stargazers.map_values(star_repo_fn()) + s.commits.map_values(commit_repo_fn())
}

/// Each name once, keeping first occurrences in order.
pub open spec fn dedup_first(s: Seq<Seq<char>>) -> Seq<Seq<char>>
    decreases s.len(),
{
    if s.len() == 0 {
        Seq::empty()
    } else {
        let d = dedup_first(s.drop_last());
        if d.contains(s.last()) {
            d
        } else {
            d.push(s.last())
        }
    }
}

/// The repositories a metrics row is produced for: every one the raw
/// tables mention.
pub open spec fn active_repos(s: StoreV) -> Seq<Seq<char>> {
    dedup_first(repo_names(s))
}

/// Collect the active repositories.
#[verifier::loop_isolation(false)]
pub fn active_repo_names(store: &Store) -> (r: Vec<String>)
    ensures
        view_rows(r@) == active_repos(store@),
{
    let ghost sv = store@;
    let mut out: Vec<String> = Vec::new();
    let ghost names1 = sv.prs.map_values(pr_repo_fn());
    let n1 = store.prs.len();
    let mut i: usize = 0;
    while i < n1
        invariant
            i <= n1,
            view_rows(out@) =~= dedup_first(names1.take(i as int)),
        decreases n1 - i,
    {
        proof {
            assert(names1.take(i + 1).drop_last() =~= names1.take(i as int));
            assert(names1.take(i + 1).last() == names1[i as int]);
        }
        if !crate::ingest::contains_str(&out, store.prs[i].repo.as_str()) {
            let x = store.prs[i].repo.clone();
            proof {
                assert(view_rows(out@.push(x)) =~= view_rows(out@).push(x@));
            }
            out.push(x);
        }
        i += 1;
    }
    proof {
        assert(names1.take(n1 as int) =~= names1);
    }
    let ghost seen1 = names1;
    let ghost names2 = sv.issues.map_values(issue_repo_fn());
    let n2 = store.issues.len();
    let mut i2: usize = 0;
    while i2 < n2
        invariant
            i2 <= n2,
            view_rows(out@) =~= dedup_first(seen1 + names2.take(i2 as int)),
        decreases n2 - i2,
    {
        proof {
            assert((seen1 + names2.take(i2 + 1)).drop_last() =~= seen1 + names2.take(i2 as int));
            assert((seen1 + names2.take(i2 + 1)).last() == names2[i2 as int]);
        }
        if !crate::ingest::contains_str(&out, store.issues[i2].repo.as_str()) {
            let x = store.issues[i2].repo.clone();
            proof {
                assert(view_rows(out@.push(x)) =~= view_rows(out@).push(x@));
            }
            out.push(x);
        }
        i2 += 1;
    }
    proof {
        assert(seen1 + names2.take(n2 as int) =~= seen1 + names2);
    }
    let ghost seen2 = seen1 + names2;
    let ghost names3 = sv.stargazers.map_values(star_repo_fn());
    let n3 = store.stargazers.len();
    let mut i3: usize = 0;
    while i3 < n3
        invariant
            i3 <= n3,
            view_rows(out@) =~= dedup_first(seen2 + names3.take(i3 as int)),
        decreases n3 - i3,
    {
        proof {
            assert((seen2 + names3.take(i3 + 1)).drop_last() =~= seen2 + names3.take(i3 as int));
            assert((seen2 + names3.take(i3 + 1)).last() == names3[i3 as int]);
        }
        if !crate::ingest::contains_str(&out, store.stargazers[i3].repo.as_str()) {
            let x = store.stargazers[i3].repo.clone();
            proof {
                assert(view_rows(out@.push(x)) =~= view_rows(out@).push(x@));
            }
            out.push(x);
        }
        i3 += 1;
    }
    proof {
        assert(seen2 + names3.take(n3 as int) =~= seen2 + names3);
    }
    let ghost seen3 = seen2 + names3;
    let ghost names4 = sv.commits.map_values(commit_repo_fn());
    let n4 = store.commits.len();
    let mut i4: usize = 0;
    while i4 < n4
        invariant
            i4 <= n4,
            view_rows(out@) =~= dedup_first(seen3 + names4.take(i4 as int)),
        decreases n4 - i4,
    {
        proof {
            assert((seen3 + names4.take(i4 + 1)).drop_last() =~= seen3 + names4.take(i4 as int));
            assert((seen3 + names4.take(i4 + 1)).last() == names4[i4 as int]);
        }
        if !crate::ingest::contains_str(&out, store.commits[i4].repo.as_str()) {
            let x = store.commits[i4].repo.clone();
            proof {
                assert(view_rows(out@.push(x)) =~= view_rows(out@).push(x@));
            }
            out.push(x);
        }
        i4 += 1;
    }
    proof {
        assert(seen3 + names4.take(n4 as int) =~= seen3 + names4);
        assert(seen3 + names4 =~= repo_names(sv));
    }
    out
}

/// The largest date of a non-empty metrics table.
pub open spec fn max_date(ms: Seq<MetricRowV>) -> int
    decreases ms.len(),
{
    if ms.len() <= 1 {
        if ms.len() == 1 {
            ms[0].date
        } else {
            0
        }
    } else {
        let m = max_date(ms.drop_last());
        if ms.last().date > m {
            ms.last().date
        } else {
            m
        }
    }
}

/// Where the dirty window starts: three days before the newest metric, or
/// the start of history when no metrics exist yet. The backdate lets
/// late-arriving activity correct already computed days.
pub open spec fn spec_window_start(ms: Seq<MetricRowV>) -> int {
    if ms.len() == 0 {
        METRICS_EPOCH_DAY as int
    } else {
        max_date(ms) - 3
    }
}

#[verifier::loop_isolation(false)]
fn window_start(metrics: &Vec<MetricRow>) -> (r: i64)
    requires
        forall|i: int|
            0 <= i < metrics@.len() ==> DAY_MIN <= (#[trigger] view_rows(metrics@)[i]).date
                <= DAY_MAX,
    ensures
        r as int == spec_window_start(view_rows(metrics@)),
        DAY_MIN - 3 <= r <= DAY_MAX,
{
    let ghost rows = view_rows(metrics@);
    let n = metrics.len();
    if n == 0 {
        return METRICS_EPOCH_DAY;
    }
    let mut m: i64 = metrics[0].date;
    let mut i: usize = 1;
    while i < n
        invariant
            1 <= i <= n,
            m as int == max_date(rows.take(i as int)),
            DAY_MIN <= m <= DAY_MAX,
        decreases n - i,
    {
        proof {
            assert(rows.take(i + 1).drop_last() =~= rows.take(i as int));
            assert(rows.take(i + 1).last() == rows[i as int]);
        }
        if metrics[i].date > m {
            m = metrics[i].date;
        }
        i += 1;
    }
    proof {
        assert(rows.take(n as int) =~= rows);
    }
    m - 3
}

// ---------------------------------------------------------------------------
// One metrics row, and the full recomputation
// ---------------------------------------------------------------------------

/// The metrics row of `(d, repo)`: a pure function of the raw tables.
pub open spec fn metric_row_spec(s: StoreV, d: int, repo: Seq<char>) -> MetricRowV {
    let ps = pr_day_stats(s.prs, repo, d);
    let is = issue_day_stats(s.issues, repo, d);
    let ch = churn_day_stats(s.commits, repo, d);
    let ci = ci_day_stats(s.workflow_runs, repo, d);
    let rs = resp_day_stats(resp_entries_spec(s), repo, d);
    MetricRowV {
        date: d,
        repo: repo,
        prs_opened: ps.opened,
        prs_merged: ps.merged,
        issues_opened: is.opened,
        issues_closed: is.closed,
        churn_additions: ch.additions,
        churn_deletions: ch.deletions,
        ci_failures: ci.failures,
        ci_runs: ci.runs,
        stars: star_count(s.stargazers, repo, d),
        open_items_count: is.open_count + ps.open_count,
        open_issues_count: is.open_count,
        open_prs_count: ps.open_count,
        time_to_first_response: spec_avg(rs.sum, rs.cnt),
        avg_issue_resolution_time: spec_avg(is.res_sum, is.res_cnt),
        avg_pr_resolution_time: spec_avg(ps.res_sum, ps.res_cnt),
        time_to_merge_internal: spec_avg(ps.mi_sum, ps.mi_cnt),
        time_to_merge_external: spec_avg(ps.me_sum, ps.me_cnt),
    }
}

/// Build the row of `(d, repo)` from the raw tables and the prebuilt
/// response index.
fn build_metric_row(store: &Store, entries: &Vec<RespEntry>, repo: &str, d: i64) -> (r: MetricRow)
    requires
        store@.wf(),
        view_rows(entries@) == resp_entries_spec(store@),
        forall|i: int|
            0 <= i < entries@.len() ==> -(DUR_MAX as int) <= (#[trigger] view_rows(
                entries@,
            )[i]).secs <= DUR_MAX as int,
        store@.issues.len() + store@.prs.len() <= usize::MAX,
    ensures
        r@ =~= metric_row_spec(store@, d as int, repo@),
{
    let ps = pr_stats(&store.prs, repo, d);
    let is = issue_stats(&store.issues, repo, d);
    let (adds, dels) = churn_stats(&store.commits, repo, d);
    let (runs, failures) = ci_stats(&store.workflow_runs, repo, d);
    let stars = star_stats(&store.stargazers, repo, d);
    let (rsum, rcnt) = resp_stats(entries, repo, d);
    MetricRow {
        date: d,
        repo: repo.to_owned(),
        prs_opened: ps.opened,
        prs_merged: ps.merged,
        issues_opened: is.opened,
        issues_closed: is.closed,
        churn_additions: adds,
        churn_deletions: dels,
        ci_failures: failures,
        ci_runs: runs,
        stars,
        open_items_count: is.open_count + ps.open_count,
        open_issues_count: is.open_count,
        open_prs_count: ps.open_count,
        time_to_first_response: avg_duration(rsum, rcnt),
        avg_issue_resolution_time: avg_duration(is.res_sum, is.res_cnt),
        avg_pr_resolution_time: avg_duration(ps.res_sum, ps.res_cnt),
        time_to_merge_internal: avg_duration(ps.mi_sum, ps.mi_cnt),
        time_to_merge_external: avg_duration(ps.me_sum, ps.me_cnt),
    }
}

/// The rows the recomputation keeps: those strictly before the window.
pub open spec fn kept_pred(start: int) -> spec_fn(MetricRowV) -> bool {
    |m: MetricRowV| m.date < start
}

/// The row of each active repository for one day.
pub open spec fn day_row_fn(s: StoreV, d: int) -> spec_fn(Seq<char>) -> MetricRowV {
    |repo: Seq<char>| metric_row_spec(s, d, repo)
}

/// The rows of one day, one per active repository, in repository order.
pub open spec fn day_rows(s: StoreV, repos: Seq<Seq<char>>, d: int) -> Seq<MetricRowV> {
    repos.map_values(day_row_fn(s, d))
}

/// The rows of the whole window, day by day from `start` through `t`.
pub open spec fn window_rows(s: StoreV, repos: Seq<Seq<char>>, start: int, t: int) -> Seq<
    MetricRowV,
>
    decreases t - start + 1,
{
    if t < start {
        Seq::empty()
    } else {
        window_rows(s, repos, start, t - 1) + day_rows(s, repos, t)
    }
}

/// The metrics table after one recomputation: rows before the window are
/// kept as they are; everything from the window start through today is
/// regenerated from the raw tables.
pub open spec fn spec_compute(s: StoreV, today: int) -> Seq<MetricRowV> {
    let start = spec_window_start(s.daily_metrics);
    s.daily_metrics.filter(kept_pred(start)) + window_rows(s, active_repos(s), start, today)
}

fn clone_metric_row(r: &MetricRow) -> (c: MetricRow)
    ensures
        c@ =~= r@,
{
    MetricRow {
        date: r.date,
        repo: r.repo.clone(),
        prs_opened: r.prs_opened,
        prs_merged: r.prs_merged,
        issues_opened: r.issues_opened,
        issues_closed: r.issues_closed,
        churn_additions: r.churn_additions,
        churn_deletions: r.churn_deletions,
        ci_failures: r.ci_failures,
        ci_runs: r.ci_runs,
        stars: r.stars,
        open_items_count: r.open_items_count,
        open_issues_count: r.open_issues_count,
        open_prs_count: r.open_prs_count,
        time_to_first_response: r.time_to_first_response,
        avg_issue_resolution_time: r.avg_issue_resolution_time,
        avg_pr_resolution_time: r.avg_pr_resolution_time,
        time_to_merge_internal: r.time_to_merge_internal,
        time_to_merge_external: r.time_to_merge_external,
    }
}

/// Recompute the daily metrics over the dirty window: delete every row
/// from the window start on, then regenerate one row per day and active
/// repository through `today`. Days outside the window are untouched, and
/// no regenerated day depends on another's value.
#[verifier::loop_isolation(false)]
pub fn compute_metrics(store: &mut Store, today: i64)
    requires
        old(store)@.wf(),
        DAY_MIN <= today <= DAY_MAX,
        forall|i: int|
            0 <= i < old(store)@.daily_metrics.len() ==> DAY_MIN <= (#[trigger] old(
                store,
            )@.daily_metrics[i]).date <= DAY_MAX,
        old(store)@.issues.len() + old(store)@.prs.len() <= usize::MAX,
    ensures
        final(store)@ =~= (StoreV {
            daily_metrics: spec_compute(old(store)@, today as int),
            ..old(store)@
        }),
        final(store)@.wf(),
{
    let ghost sv = old(store)@;
    let entries = build_response_index(store);
    let repos = active_repo_names(store);
    let start = window_start(&store.daily_metrics);
    let ghost start_g = spec_window_start(sv.daily_metrics);
    let ghost pred = kept_pred(start_g);
    // Keep the rows before the window.
    let mut out: Vec<MetricRow> = Vec::new();
    let nk = store.daily_metrics.len();
    let mut i: usize = 0;
    while i < nk
        invariant
            i <= nk,
            nk == store.daily_metrics@.len(),
            store@ == sv,
            view_rows(out@) =~= sv.daily_metrics.take(i as int).filter(pred),
            start as int == start_g,
            pred == kept_pred(start_g),
        decreases nk - i,
    {
        proof {
            let t = sv.daily_metrics;
            assert(t.take(i + 1) =~= t.take(i as int).push(t[i as int]));
            t.take(i as int).lemma_filter_push(t[i as int], pred);
        }
        if store.daily_metrics[i].date < start {
            let c = clone_metric_row(&store.daily_metrics[i]);
            proof {
                assert(view_rows(out@.push(c)) =~= view_rows(out@).push(c@));
                assert(c@ =~= sv.daily_metrics[i as int]);
            }
            out.push(c);
        }
        i += 1;
    }
    proof {
        assert(sv.daily_metrics.take(nk as int) =~= sv.daily_metrics);
    }
    let ghost kept = sv.daily_metrics.filter(pred);
    // Regenerate the window, day by day.
    let ghost repos_v = view_rows(repos@);
    let nr = repos.len();
    let mut d: i64 = start;
    while d <= today
        invariant
            start <= d,
            d <= today + 1 || d == start,
            view_rows(out@) =~= kept + window_rows(sv, repos_v, start as int, d as int - 1),
            store@ == sv,
            start as int == start_g,
            view_rows(entries@) == resp_entries_spec(sv),
            forall|q: int|
                0 <= q < entries@.len() ==> -(DUR_MAX as int) <= (#[trigger] view_rows(
                    entries@,
                )[q]).secs <= DUR_MAX as int,
            repos_v == view_rows(repos@),
            nr == repos@.len(),
            kept == sv.daily_metrics.filter(kept_pred(start_g)),
        decreases today + 1 - d,
    {
        let mut j: usize = 0;
        while j < nr
            invariant
                j <= nr,
                view_rows(out@) =~= kept + window_rows(sv, repos_v, start as int, d as int - 1)
                    + repos_v.take(j as int).map_values(day_row_fn(sv, d as int)),
                store@ == sv,
                d <= today,
                start <= d,
            decreases nr - j,
        {
            let row = build_metric_row(store, &entries, repos[j].as_str(), d);
            proof {
                assert(repos_v.take(j + 1) =~= repos_v.take(j as int).push(repos_v[j as int]));
                crate::table::lemma_map_push(
                    repos_v.take(j as int),
                    day_row_fn(sv, d as int),
                    repos_v[j as int],
                );
                assert(view_rows(out@.push(row)) =~= view_rows(out@).push(row@));
                assert(row@ =~= day_row_fn(sv, d as int)(repos_v[j as int]));
            }
            out.push(row);
            j += 1;
        }
        proof {
            assert(repos_v.take(nr as int) =~= repos_v);
            assert(window_rows(sv, repos_v, start as int, d as int) =~= window_rows(
                sv,
                repos_v,
                start as int,
                d as int - 1,
            ) + day_rows(sv, repos_v, d as int));
        }
        d += 1;
    }
    proof {
        if start > today {
            assert(window_rows(sv, repos_v, start as int, today as int) =~= Seq::<
                MetricRowV,
            >::empty());
            assert(window_rows(sv, repos_v, start as int, d as int - 1) =~= Seq::<
                MetricRowV,
            >::empty());
        }
        assert(view_rows(out@) =~= spec_compute(sv, today as int));
    }
    store.daily_metrics = out;
}

// ---------------------------------------------------------------------------
// Laws of the recomputation
// ---------------------------------------------------------------------------

/// Every regenerated row's date lies inside the window.
pub proof fn lemma_window_rows_dates(s: StoreV, repos: Seq<Seq<char>>, start: int, t: int)
    ensures
        forall|k: int|
            0 <= k < window_rows(s, repos, start, t).len() ==> start <= (#[trigger] window_rows(
                s,
                repos,
                start,
                t,
            )[k]).date <= t,
    decreases t - start + 1,
{
    if t < start {
    } else {
        lemma_window_rows_dates(s, repos, start, t - 1);
        let w = window_rows(s, repos, start, t);
        let prev = window_rows(s, repos, start, t - 1);
        let dr = day_rows(s, repos, t);
        assert forall|k: int| 0 <= k < w.len() implies start <= (#[trigger] w[k]).date <= t by {
            if k < prev.len() {
                assert(w[k] == prev[k]);
            } else {
                assert(w[k] == dr[k - prev.len()]);
                assert(dr[k - prev.len()] == day_row_fn(s, t)(repos[k - prev.len()]));
            }
        }
    }
}

/// The dirty window only: every metrics row dated before the window start
/// is carried over exactly, and no regenerated row lands there. A row ten
/// days old is the same row after the recomputation.
pub proof fn lemma_window_boundary(s: StoreV, today: int, m: MetricRowV)
    requires
        m.date < spec_window_start(s.daily_metrics),
    ensures
        spec_compute(s, today).contains(m) <==> s.daily_metrics.contains(m),
{
    broadcast use vstd::seq_lib::group_seq_properties;

    let start = spec_window_start(s.daily_metrics);
    let pred = kept_pred(start);
    let kept = s.daily_metrics.filter(pred);
    let wins = window_rows(s, active_repos(s), start, today);
    assert(spec_compute(s, today) == kept + wins);
    lemma_window_rows_dates(s, active_repos(s), start, today);
    if spec_compute(s, today).contains(m) {
        let k = choose|k: int|
            0 <= k < (kept + wins).len() && (kept + wins)[k] == m;
        if k < kept.len() {
            assert(kept.contains(m)) by {
                assert(kept[k] == m);
            }
            s.daily_metrics.lemma_filter_contains_rev(pred, m);
        } else {
            assert(wins[k - kept.len()] == m);
            assert(false);
        }
    }
    if s.daily_metrics.contains(m) {
        let k = choose|k: int|
            0 <= k < s.daily_metrics.len() && s.daily_metrics[k] == m;
        assert(pred(s.daily_metrics[k]));
        s.daily_metrics.lemma_filter_contains(pred, k);
        assert(kept.contains(m));
        let j = choose|j: int| 0 <= j < kept.len() && kept[j] == m;
        assert((kept + wins)[j] == m);
        assert((kept + wins).contains(m));
    }
}

/// `max_date` never exceeds a bound every date respects.
proof fn lemma_max_date_le(ms: Seq<MetricRowV>, b: int)
    requires
        forall|i: int| 0 <= i < ms.len() ==> (#[trigger] ms[i]).date <= b,
    ensures
        ms.len() > 0 ==> max_date(ms) <= b,
    decreases ms.len(),
{
    if ms.len() > 1 {
        let t = ms.drop_last();
        assert(forall|i: int| 0 <= i < t.len() ==> (#[trigger] t[i]).date <= b) by {
            assert(forall|i: int| 0 <= i < t.len() ==> t[i] == ms[i]);
        }
        lemma_max_date_le(t, b);
    }
}

/// With every date at most `b` and one date equal to `b`, the maximum is
/// `b`.
proof fn lemma_max_date_eq(ms: Seq<MetricRowV>, b: int, w: int)
    requires
        forall|i: int| 0 <= i < ms.len() ==> (#[trigger] ms[i]).date <= b,
        0 <= w < ms.len(),
        ms[w].date == b,
    ensures
        max_date(ms) == b,
    decreases ms.len(),
{
    lemma_max_date_le(ms, b);
    if ms.len() > 1 {
        let t = ms.drop_last();
        assert(forall|i: int| 0 <= i < t.len() ==> (#[trigger] t[i]).date <= b) by {
            assert(forall|i: int| 0 <= i < t.len() ==> t[i] == ms[i]);
        }
        if w < ms.len() - 1 {
            assert(t[w] == ms[w]);
            lemma_max_date_eq(t, b, w);
        } else {
            lemma_max_date_le(t, b);
        }
    }
}

/// The regenerated rows do not depend on the metrics table itself: a store
/// differing only there yields the same window rows.
proof fn lemma_window_congruent(
    s1: StoreV,
    s2: StoreV,
    repos: Seq<Seq<char>>,
    start: int,
    t: int,
)
    requires
        s1.prs == s2.prs,
        s1.issues == s2.issues,
        s1.issue_comments == s2.issue_comments,
        s1.pr_review_comments == s2.pr_review_comments,
        s1.pr_reviews == s2.pr_reviews,
        s1.stargazers == s2.stargazers,
        s1.commits == s2.commits,
        s1.workflow_runs == s2.workflow_runs,
    ensures
        window_rows(s2, repos, start, t) == window_rows(s1, repos, start, t),
    decreases t - start + 1,
{
    if t < start {
    } else {
        lemma_window_congruent(s1, s2, repos, start, t - 1);
        assert(day_rows(s2, repos, t) =~= day_rows(s1, repos, t)) by {
            assert(forall|k: int|
                0 <= k < repos.len() ==> day_row_fn(s2, t)(#[trigger] repos[k]) == day_row_fn(
                    s1,
                    t,
                )(repos[k])) by {
                assert(resp_entries_spec(s2) == resp_entries_spec(s1));
            }
        }
        assert(window_rows(s2, repos, start, t) =~= window_rows(s1, repos, start, t));
    }
}

/// Filtering a window below a boundary past its start truncates it there.
#[verifier::rlimit(60)]
proof fn lemma_window_filter(
    s: StoreV,
    repos: Seq<Seq<char>>,
    start: int,
    t: int,
    bound: int,
)
    requires
        start <= bound,
    ensures
        window_rows(s, repos, start, t).filter(kept_pred(bound)) == window_rows(
            s,
            repos,
            start,
            if t < bound {
                t
            } else {
                bound - 1
            },
        ),
    decreases t - start + 1,
{
    broadcast use vstd::seq::Seq::filter_distributes_over_add;

    if t < start {
        crate::table::lemma_filter_none(window_rows(s, repos, start, t), kept_pred(bound));
    } else {
        lemma_window_filter(s, repos, start, t - 1, bound);
        let dr = day_rows(s, repos, t);
        assert(forall|k: int| 0 <= k < dr.len() ==> (#[trigger] dr[k]).date == t) by {
            assert(forall|k: int|
                0 <= k < repos.len() ==> day_row_fn(s, t)(#[trigger] repos[k]).date == t);
        }
        if t < bound {
            crate::table::lemma_filter_all(dr, kept_pred(bound));
        } else {
            crate::table::lemma_filter_none(dr, kept_pred(bound));
            assert(window_rows(s, repos, start, t - 1).filter(kept_pred(bound)) + Seq::<
                MetricRowV,
            >::empty() =~= window_rows(s, repos, start, t - 1).filter(kept_pred(bound)));
        }
    }
}

/// A window splits at any interior day.
proof fn lemma_window_split(s: StoreV, repos: Seq<Seq<char>>, start: int, mid: int, t: int)
    requires
        start <= mid,
        mid <= t + 1,
    ensures
        window_rows(s, repos, start, t) == window_rows(s, repos, start, mid - 1) + window_rows(
            s,
            repos,
            mid,
            t,
        ),
    decreases t - mid + 1,
{
    if t < mid {
        assert(window_rows(s, repos, mid, t) == Seq::<MetricRowV>::empty());
        assert(window_rows(s, repos, start, mid - 1) + Seq::<MetricRowV>::empty()
            =~= window_rows(s, repos, start, mid - 1));
    } else {
        lemma_window_split(s, repos, start, mid, t - 1);
        assert((window_rows(s, repos, start, mid - 1) + window_rows(s, repos, mid, t - 1))
            + day_rows(s, repos, t) =~= window_rows(s, repos, start, mid - 1) + (window_rows(
            s,
            repos,
            mid,
            t - 1,
        ) + day_rows(s, repos, t)));
    }
}

/// Every kept row's date is below the window start.
proof fn lemma_kept_dates(ms: Seq<MetricRowV>, start: int)
    ensures
        forall|i: int|
            0 <= i < ms.filter(kept_pred(start)).len() ==> (#[trigger] ms.filter(
                kept_pred(start),
            )[i]).date < start,
{
    assert forall|i: int| 0 <= i < ms.filter(kept_pred(start)).len() implies (#[trigger] ms.filter(
        kept_pred(start),
    )[i]).date < start by {
        ms.lemma_filter_pred(kept_pred(start), i);
    }
}

/// After one recomputation the newest row is dated `today`, so the next
/// window starts exactly three days earlier.
proof fn lemma_first_pass_shape(s: StoreV, today: int)
    requires
        active_repos(s).len() > 0,
        forall|i: int|
            0 <= i < s.daily_metrics.len() ==> (#[trigger] s.daily_metrics[i]).date <= today,
        METRICS_EPOCH_DAY + 3 <= today,
    ensures
        spec_compute(s, today).len() > 0,
        spec_window_start(spec_compute(s, today)) == today - 3,
        spec_window_start(s.daily_metrics) <= today - 3,
{
    let repos = active_repos(s);
    let start1 = spec_window_start(s.daily_metrics);
    let pred1 = kept_pred(start1);
    let kept1 = s.daily_metrics.filter(pred1);
    let win1 = window_rows(s, repos, start1, today);
    let m1 = spec_compute(s, today);
    if s.daily_metrics.len() > 0 {
        lemma_max_date_le(s.daily_metrics, today);
    }
    assert(start1 <= today - 3);
    assert(win1 == window_rows(s, repos, start1, today - 1) + day_rows(s, repos, today));
    assert(day_rows(s, repos, today).len() == repos.len());
    assert(m1.len() > 0);
    lemma_window_rows_dates(s, repos, start1, today);
    lemma_kept_dates(s.daily_metrics, start1);
    s.daily_metrics.lemma_filter_len(pred1);
    assert(forall|i: int| 0 <= i < m1.len() ==> (#[trigger] m1[i]).date <= today) by {
        assert(forall|i: int|
            kept1.len() <= i < m1.len() ==> m1[i] == win1[i - kept1.len()]);
    }
    let witness = m1.len() - 1;
    assert(m1[witness] == day_rows(s, repos, today)[repos.len() - 1]);
    assert(day_rows(s, repos, today)[repos.len() - 1] == day_row_fn(s, today)(
        repos[repos.len() - 1],
    ));
    assert(m1[witness].date == today);
    lemma_max_date_eq(m1, today, witness);
}

/// Aggregation idempotence: with the raw tables unchanged, recomputing
/// twice yields exactly the rows of the first recomputation, for every
/// date. The hypotheses exclude degenerate inputs on which the window
/// itself moves: at least one active repository, no metrics row dated in
/// the future, and a clock at least three days past the start of history.
#[verifier::rlimit(100)]
pub proof fn lemma_compute_idempotent(s: StoreV, today: int)
    requires
        active_repos(s).len() > 0,
        forall|i: int|
            0 <= i < s.daily_metrics.len() ==> (#[trigger] s.daily_metrics[i]).date <= today,
        METRICS_EPOCH_DAY + 3 <= today,
    ensures
        spec_compute(StoreV { daily_metrics: spec_compute(s, today), ..s }, today) == spec_compute(
            s,
            today,
        ),
{
    broadcast use vstd::seq::Seq::filter_distributes_over_add;

    let repos = active_repos(s);
    let start1 = spec_window_start(s.daily_metrics);
    let pred1 = kept_pred(start1);
    let kept1 = s.daily_metrics.filter(pred1);
    let m1 = spec_compute(s, today);
    let s2 = StoreV { daily_metrics: m1, ..s };
    assert(active_repos(s2) == repos);
    lemma_first_pass_shape(s, today);
    lemma_kept_dates(s.daily_metrics, start1);
    let start2 = spec_window_start(m1);
    assert(start2 == today - 3);
    assert(start1 <= start2);

    // The second pass keeps the first pass's rows below its window start.
    let pred2 = kept_pred(start2);
    assert(forall|i: int| 0 <= i < kept1.len() ==> pred2(#[trigger] kept1[i]));
    crate::table::lemma_filter_all(kept1, pred2);
    lemma_window_filter(s, repos, start1, today, start2);
    assert(m1.filter(pred2) == kept1 + window_rows(s, repos, start1, start2 - 1));

    // And regenerates exactly the rest.
    lemma_window_congruent(s, s2, repos, start2, today);
    lemma_window_split(s, repos, start1, start2, today);
    assert(spec_compute(s2, today) == (kept1 + window_rows(s, repos, start1, start2 - 1))
        + window_rows(s, repos, start2, today));
    assert((kept1 + window_rows(s, repos, start1, start2 - 1)) + window_rows(
        s,
        repos,
        start2,
        today,
    ) =~= kept1 + (window_rows(s, repos, start1, start2 - 1) + window_rows(
        s,
        repos,
        start2,
        today,
    )));
}

} // verus!
