//! Decisions of the synchronization engine: the rate governor's wait, which
//! repositories are eligible, how a missing remote resource is recognized,
//! and how one raw record becomes one stored row (absent leaf fields
//! degrade to explicit empty or zero sentinels; a malformed record never
//! aborts a page).

use crate::rows::{
    CommentRow, CommentRowV, CommitRow, CommitRowV, IssueRow, IssueRowV, IssueState, PrRow, PrRowV,
    RawComment, RawCommitDetail, RawIssue, RawPr, RawReview, RawStar, RawWorkflowRun, ReviewRow,
    ReviewRowV, StarRow, StarRowV, WorkflowRow, WorkflowRowV,
};
use crate::store::{
    comment_key, comment_ts_wf, commit_key, commit_ts_wf, issue_ts_wf, pr_key, pr_ts_wf,
    review_key, review_ts_wf, spec_commit_present, star_key, star_ts_wf, upsert_issue_spec,
    view_rows, workflow_key, workflow_ts_wf, Store, StoreV,
};
use crate::table::{cut_at, lemma_cut_at, lemma_filter_unique, upsert_seq};
use crate::strutil::{
    eq_ignore_case, has_prefix, spec_eq_ignore_case, spec_has_prefix, spec_tail_number, str_eq,
    tail_number,
};
use crate::time::{opt_ts_in_range, parse_rfc3339_secs, rfc3339_secs, ts_in_range};
use vstd::prelude::*;

verus! {

// ---------------------------------------------------------------------------
// Rate governor
// ---------------------------------------------------------------------------

/// Quota level below which the governor suspends the run.
pub const QUOTA_LOW_WATER: u64 = 50;

/// Safety margin added to the wait, in seconds.
pub const QUOTA_MARGIN_SECS: u64 = 10;

/// Seconds the run must sleep before the next quota-consuming call: zero
/// while quota is ample; otherwise the time to the quota reset (floored at
/// zero) plus the safety margin.
pub open spec fn spec_quota_wait(remaining: u64, reset: u64, now: u64) -> int {
    if remaining < QUOTA_LOW_WATER {
        (if reset >= now {
            reset - now
        } else {
            0
        }) + QUOTA_MARGIN_SECS
    } else {
        0
    }
}

/// The rate governor's decision, from the quota endpoint's answer and the
/// clock.
pub fn quota_wait_secs(remaining: u64, reset: u64, now: u64) -> (r: u64)
    requires
        reset >= now ==> reset - now <= u64::MAX - QUOTA_MARGIN_SECS,
    ensures
        r == spec_quota_wait(remaining, reset, now),
{
    if remaining < QUOTA_LOW_WATER {
        let base: u64 = if reset >= now {
            reset - now
        } else {
            0
        };
        base + QUOTA_MARGIN_SECS
    } else {
        0
    }
}

// ---------------------------------------------------------------------------
// Repository eligibility
// ---------------------------------------------------------------------------

/// What the org-level driver needs to know of one repository.
#[derive(Debug, Clone, PartialEq)]
pub struct RepoInfo {
    pub name: String,
    pub archived: Option<bool>,
    pub is_private: Option<bool>,
}

#[verifier::ext_equal]
pub struct RepoInfoV {
    pub name: Seq<char>,
    pub archived: Option<bool>,
    pub is_private: Option<bool>,
}

impl View for RepoInfo {
    type V = RepoInfoV;

    open spec fn view(&self) -> RepoInfoV {
        RepoInfoV { name: self.name@, archived: self.archived, is_private: self.is_private }
    }
}

/// A repository is synced unless it is archived, private, or carries the
/// private name prefix.
pub open spec fn spec_repo_eligible(r: RepoInfoV) -> bool {
    &&& !(r.archived matches Some(true))
    &&& !(r.is_private matches Some(true))
    &&& !spec_has_prefix(r.name, "private_"@)
}

/// Whether the org-level driver syncs this repository.
pub fn repo_eligible(r: &RepoInfo) -> (b: bool)
    ensures
        b == spec_repo_eligible(r@),
{
    let archived = match r.archived {
        Some(a) => a,
        None => false,
    };
    let is_private = match r.is_private {
        Some(p) => p,
        None => false,
    };
    !archived && !is_private && !has_prefix(r.name.as_str(), "private_")
}

/// The repositories the driver walks, in listing order.
#[verifier::loop_isolation(false)]
pub fn eligible_repos(repos: Vec<RepoInfo>) -> (r: Vec<RepoInfo>)
    ensures
        crate::store::view_rows(r@) == crate::store::view_rows(repos@).filter(
            |x: RepoInfoV| spec_repo_eligible(x),
        ),
{
    broadcast use vstd::seq::Seq::lemma_filter_push;

    let mut out: Vec<RepoInfo> = Vec::new();
    let n = repos.len();
    let mut i: usize = 0;
    while i < n
        invariant
            i <= n,
            crate::store::view_rows(out@) =~= crate::store::view_rows(repos@.take(i as int)).filter(
                |x: RepoInfoV| spec_repo_eligible(x),
            ),
        decreases n - i,
    {
        proof {
            assert(repos@.take(i + 1).drop_last() =~= repos@.take(i as int));
            assert(crate::store::view_rows(repos@.take(i + 1)) =~= crate::store::view_rows(
                repos@.take(i as int),
            ).push(repos@[i as int]@));
        }
        let keep = repo_eligible(&repos[i]);
        if keep {
            let x = RepoInfo {
                name: repos[i].name.clone(),
                archived: repos[i].archived,
                is_private: repos[i].is_private,
            };
            proof {
                assert(x@ =~= repos@[i as int]@);
            }
            out.push(x);
        }
        i += 1;
    }
    proof {
        assert(repos@.take(n as int) =~= repos@);
    }
    out
}

// ---------------------------------------------------------------------------
// Missing-resource classification
// ---------------------------------------------------------------------------

/// A remote answer that means the item is gone rather than failing: the
/// not-found or gone status, or the not-found message in either casing.
pub open spec fn spec_missing_resource(status: u16, message: Seq<char>) -> bool {
    ||| status == 404u16
    ||| status == 410u16
    ||| spec_eq_ignore_case(message, "Not Found"@)
    ||| spec_eq_ignore_case(message, "Not Found."@)
}

/// Whether a remote error denotes a deleted or missing resource.
pub fn is_missing_resource(status: u16, message: &str) -> (r: bool)
    ensures
        r == spec_missing_resource(status, message@),
{
    status == 404 || status == 410 || eq_ignore_case(message, "Not Found") || eq_ignore_case(
        message,
        "Not Found.",
    )
}

// ---------------------------------------------------------------------------
// Field defaulting and parsing helpers
// ---------------------------------------------------------------------------

/// The instant an optional ISO-8601 string denotes, when it parses.
pub open spec fn spec_parse_opt(s: Option<String>) -> Option<i64> {
    match s {
        Some(x) => rfc3339_secs(x@),
        None => None,
    }
}

/// Parse an optional timestamp string.
pub fn parse_opt_ts(s: &Option<String>) -> (r: Option<i64>)
    ensures
        r == spec_parse_opt(*s),
        opt_ts_in_range(r),
{
    match s {
        Some(x) => parse_rfc3339_secs(x.as_str()),
        None => None,
    }
}

/// An optional string, or the empty sentinel.
pub open spec fn spec_or_empty(s: Option<String>) -> Seq<char> {
    match s {
        Some(x) => x@,
        None => Seq::empty(),
    }
}

fn or_empty(s: Option<String>) -> (r: String)
    ensures
        r@ == spec_or_empty(s),
{
    match s {
        Some(x) => x,
        None => String::new(),
    }
}

/// An optional string, or the unknown sentinel.
pub open spec fn spec_or_unknown(s: Option<String>) -> Seq<char> {
    match s {
        Some(x) => x@,
        None => "unknown"@,
    }
}

fn or_unknown(s: Option<String>) -> (r: String)
    ensures
        r@ == spec_or_unknown(s),
{
    match s {
        Some(x) => x,
        None => "unknown".to_owned(),
    }
}

/// An optional number, or zero.
pub open spec fn spec_or_zero(s: Option<i64>) -> int {
    match s {
        Some(x) => x as int,
        None => 0,
    }
}

fn or_zero(s: Option<i64>) -> (r: i64)
    ensures
        r as int == spec_or_zero(s),
{
    match s {
        Some(x) => x,
        None => 0,
    }
}

/// The issue state a payload string denotes.
pub open spec fn spec_issue_state_of(s: Option<String>) -> IssueState {
    match s {
        Some(x) => if x@ == "open"@ {
            IssueState::Open
        } else if x@ == "closed"@ {
            IssueState::Closed
        } else {
            IssueState::Unknown
        },
        None => IssueState::Unknown,
    }
}

fn issue_state_of(s: &Option<String>) -> (r: IssueState)
    ensures
        r == spec_issue_state_of(*s),
{
    match s {
        Some(x) => {
            if str_eq(x.as_str(), "open") {
                IssueState::Open
            } else if str_eq(x.as_str(), "closed") {
                IssueState::Closed
            } else {
                IssueState::Unknown
            }
        },
        None => IssueState::Unknown,
    }
}

// ---------------------------------------------------------------------------
// Row constructors (the entity upserter's mapping)
// ---------------------------------------------------------------------------

/// The stored row a raw pull-request record maps to.
pub open spec fn spec_pr_row(raw: RawPr, repo: Seq<char>) -> PrRowV {
    PrRowV {
        id: raw.id as int,
        repo: repo,
        number: raw.number as int,
        state: raw.state,
        author: spec_or_empty(raw.author),
        title: spec_or_empty(raw.title),
        created_at: spec_parse_opt(raw.created_at),
        updated_at: spec_parse_opt(raw.updated_at),
        merged_at: spec_parse_opt(raw.merged_at),
        closed_at: spec_parse_opt(raw.closed_at),
        author_association: match raw.author_association {
            Some(a) => Some(a@),
            None => None,
        },
        payload: raw.payload@,
    }
}

/// Map one raw pull-request record to its stored row.
pub fn pr_row_from_raw(raw: RawPr, repo: &str) -> (r: PrRow)
    ensures
        r@ == spec_pr_row(raw, repo@),
        pr_ts_wf(r@),
{
    let created_at = parse_opt_ts(&raw.created_at);
    let updated_at = parse_opt_ts(&raw.updated_at);
    let merged_at = parse_opt_ts(&raw.merged_at);
    let closed_at = parse_opt_ts(&raw.closed_at);
    PrRow {
        id: raw.id,
        repo: repo.to_owned(),
        number: raw.number,
        state: raw.state,
        author: or_empty(raw.author),
        title: or_empty(raw.title),
        created_at,
        updated_at,
        merged_at,
        closed_at,
        author_association: raw.author_association,
        payload: raw.payload,
    }
}

/// The stored row a raw issue record maps to.
pub open spec fn spec_issue_row(raw: RawIssue, repo: Seq<char>) -> IssueRowV {
    IssueRowV {
        id: spec_or_zero(raw.id),
        repo: repo,
        number: spec_or_zero(raw.number),
        state: spec_issue_state_of(raw.state),
        author: spec_or_unknown(raw.author),
        title: spec_or_empty(raw.title),
        created_at: spec_parse_opt(raw.created_at),
        updated_at: spec_parse_opt(raw.updated_at),
        closed_at: spec_parse_opt(raw.closed_at),
        deleted_at: None,
        payload: raw.payload@,
    }
}

/// Map one raw issue record to its stored row.
pub fn issue_row_from_raw(raw: RawIssue, repo: &str) -> (r: IssueRow)
    ensures
        r@ == spec_issue_row(raw, repo@),
        issue_ts_wf(r@),
{
    let created_at = parse_opt_ts(&raw.created_at);
    let updated_at = parse_opt_ts(&raw.updated_at);
    let closed_at = parse_opt_ts(&raw.closed_at);
    let state = issue_state_of(&raw.state);
    IssueRow {
        id: or_zero(raw.id),
        repo: repo.to_owned(),
        number: or_zero(raw.number),
        state,
        author: or_unknown(raw.author),
        title: or_empty(raw.title),
        created_at,
        updated_at,
        closed_at,
        deleted_at: None,
        payload: raw.payload,
    }
}

/// The stored row a raw comment record maps to; the parent number is the
/// number at the tail of the parent URL.
pub open spec fn spec_comment_row(raw: RawComment, repo: Seq<char>) -> CommentRowV {
    CommentRowV {
        id: spec_or_zero(raw.id),
        repo: repo,
        parent_number: match raw.parent_url {
            Some(u) => spec_tail_number(u@) as int,
            None => 0,
        },
        author: spec_or_unknown(raw.author),
        created_at: spec_parse_opt(raw.created_at),
        updated_at: spec_parse_opt(raw.updated_at),
        payload: raw.payload@,
    }
}

/// Map one raw comment record to its stored row.
pub fn comment_row_from_raw(raw: RawComment, repo: &str) -> (r: CommentRow)
    ensures
        r@ == spec_comment_row(raw, repo@),
        comment_ts_wf(r@),
{
    let created_at = parse_opt_ts(&raw.created_at);
    let updated_at = parse_opt_ts(&raw.updated_at);
    let parent_number = match &raw.parent_url {
        Some(u) => tail_number(u.as_str()),
        None => 0,
    };
    CommentRow {
        id: or_zero(raw.id),
        repo: repo.to_owned(),
        parent_number,
        author: or_unknown(raw.author),
        created_at,
        updated_at,
        payload: raw.payload,
    }
}

/// The stored row a raw review record maps to.
pub open spec fn spec_review_row(raw: RawReview, repo: Seq<char>, pr_number: i64) -> ReviewRowV {
    ReviewRowV {
        id: raw.id as int,
        repo: repo,
        pr_number: pr_number as int,
        state: match raw.state {
            Some(s) => s@,
            None => "UNKNOWN"@,
        },
        author: spec_or_empty(raw.author),
        submitted_at: spec_parse_opt(raw.submitted_at),
        payload: raw.payload@,
    }
}

/// Map one raw review record to its stored row.
pub fn review_row_from_raw(raw: RawReview, repo: &str, pr_number: i64) -> (r: ReviewRow)
    ensures
        r@ == spec_review_row(raw, repo@, pr_number),
        review_ts_wf(r@),
{
    let submitted_at = parse_opt_ts(&raw.submitted_at);
    let state = match raw.state {
        Some(s) => s,
        None => "UNKNOWN".to_owned(),
    };
    ReviewRow {
        id: raw.id,
        repo: repo.to_owned(),
        pr_number,
        state,
        author: or_empty(raw.author),
        submitted_at,
        payload: raw.payload,
    }
}

/// The stored row a commit detail record maps to. Commits are immutable;
/// this row is written once, when the sha first appears.
pub open spec fn spec_commit_row(sha: String, repo: Seq<char>, d: RawCommitDetail) -> CommitRowV {
    CommitRowV {
        sha: sha@,
        repo: repo,
        author: spec_or_unknown(d.author),
        date: spec_parse_opt(d.date),
        additions: spec_or_zero(d.additions) as i64,
        deletions: spec_or_zero(d.deletions) as i64,
        message: spec_or_empty(d.message),
    }
}

/// Map one commit detail record to its stored row.
pub fn commit_row_from_detail(sha: String, repo: &str, d: RawCommitDetail) -> (r: CommitRow)
    ensures
        r@ == spec_commit_row(sha, repo@, d),
        commit_ts_wf(r@),
{
    let date = parse_opt_ts(&d.date);
    CommitRow {
        sha,
        repo: repo.to_owned(),
        author: or_unknown(d.author),
        date,
        additions: or_zero(d.additions),
        deletions: or_zero(d.deletions),
        message: or_empty(d.message),
    }
}

/// The instant an optional timestamp string denotes, falling back to the
/// clock when it is unparseable.
pub open spec fn spec_parse_or(s: Option<String>, now: i64) -> int {
    match spec_parse_opt(s) {
        Some(t) => t as int,
        None => now as int,
    }
}

/// The run duration a raw workflow record reports: the span between its
/// creation and last-update instants in milliseconds, when both are given.
pub open spec fn spec_workflow_duration(raw: RawWorkflowRun, now: i64) -> int {
    if raw.created_at is Some && raw.updated_at is Some {
        (spec_parse_or(raw.updated_at, now) - spec_parse_or(raw.created_at, now)) * 1000
    } else {
        0
    }
}

/// The stored row a raw workflow-run record maps to.
pub open spec fn spec_workflow_row(raw: RawWorkflowRun, repo: Seq<char>, now: i64) -> WorkflowRowV {
    WorkflowRowV {
        id: spec_or_zero(raw.id),
        repo: repo,
        name: spec_or_empty(raw.name),
        head_branch: spec_or_empty(raw.head_branch),
        conclusion: match raw.conclusion {
            Some(c) => c@,
            None => "in_progress"@,
        },
        created_at: spec_parse_opt(raw.created_at),
        updated_at: spec_parse_opt(raw.updated_at),
        duration_ms: spec_workflow_duration(raw, now) as i64,
    }
}

/// Map one raw workflow-run record to its stored row.
pub fn workflow_row_from_raw(raw: RawWorkflowRun, repo: &str, now: i64) -> (r: WorkflowRow)
    requires
        ts_in_range(now),
    ensures
        r@ == spec_workflow_row(raw, repo@, now),
        workflow_ts_wf(r@),
{
    let created_at = parse_opt_ts(&raw.created_at);
    let updated_at = parse_opt_ts(&raw.updated_at);
    let duration_ms: i64 = if raw.created_at.is_some() && raw.updated_at.is_some() {
        let s: i64 = match created_at {
            Some(t) => t,
            None => now,
        };
        let e: i64 = match updated_at {
            Some(t) => t,
            None => now,
        };
        (e - s) * 1000
    } else {
        0
    };
    let conclusion = match raw.conclusion {
        Some(c) => c,
        None => "in_progress".to_owned(),
    };
    WorkflowRow {
        id: or_zero(raw.id),
        repo: repo.to_owned(),
        name: or_empty(raw.name),
        head_branch: or_empty(raw.head_branch),
        conclusion,
        created_at,
        updated_at,
        duration_ms,
    }
}

/// The stored row a raw stargazer entry maps to, when both its fields are
/// present; an incomplete entry is skipped.
pub open spec fn spec_star_row(raw: RawStar, repo: Seq<char>) -> Option<StarRowV> {
    match (raw.user, raw.starred_at) {
        (Some(u), Some(t)) => Some(
            StarRowV { repo: repo, user: u@, starred_at: rfc3339_secs(t@) },
        ),
        _ => None,
    }
}

/// Map one raw stargazer entry to its stored row, or skip it.
pub fn star_row_from_raw(raw: RawStar, repo: &str) -> (r: Option<StarRow>)
    ensures
        match r {
            Some(row) => spec_star_row(raw, repo@) == Some(row@) && star_ts_wf(row@),
            None => spec_star_row(raw, repo@) is None,
        },
{
    match (raw.user, raw.starred_at) {
        (Some(u), Some(t)) => {
            let starred_at = parse_rfc3339_secs(t.as_str());
            Some(StarRow { repo: repo.to_owned(), user: u, starred_at })
        },
        _ => None,
    }
}

// ---------------------------------------------------------------------------
// Clone helpers (field-wise, so their contracts are exact)
// ---------------------------------------------------------------------------

fn clone_opt_string(s: &Option<String>) -> (r: Option<String>)
    ensures
        r == *s,
{
    match s {
        Some(x) => Some(x.clone()),
        None => None,
    }
}

fn clone_raw_pr(r: &RawPr) -> (c: RawPr)
    ensures
        c == *r,
{
    RawPr {
        id: r.id,
        number: r.number,
        state: r.state,
        author: clone_opt_string(&r.author),
        title: clone_opt_string(&r.title),
        created_at: clone_opt_string(&r.created_at),
        updated_at: clone_opt_string(&r.updated_at),
        merged_at: clone_opt_string(&r.merged_at),
        closed_at: clone_opt_string(&r.closed_at),
        author_association: clone_opt_string(&r.author_association),
        payload: r.payload.clone(),
    }
}

fn clone_raw_issue(r: &RawIssue) -> (c: RawIssue)
    ensures
        c == *r,
{
    RawIssue {
        id: r.id,
        number: r.number,
        state: clone_opt_string(&r.state),
        author: clone_opt_string(&r.author),
        title: clone_opt_string(&r.title),
        created_at: clone_opt_string(&r.created_at),
        updated_at: clone_opt_string(&r.updated_at),
        closed_at: clone_opt_string(&r.closed_at),
        is_pull_request: r.is_pull_request,
        payload: r.payload.clone(),
    }
}

fn clone_raw_comment(r: &RawComment) -> (c: RawComment)
    ensures
        c == *r,
{
    RawComment {
        id: r.id,
        parent_url: clone_opt_string(&r.parent_url),
        author: clone_opt_string(&r.author),
        created_at: clone_opt_string(&r.created_at),
        updated_at: clone_opt_string(&r.updated_at),
        payload: r.payload.clone(),
    }
}

fn clone_raw_review(r: &RawReview) -> (c: RawReview)
    ensures
        c == *r,
{
    RawReview {
        id: r.id,
        state: clone_opt_string(&r.state),
        author: clone_opt_string(&r.author),
        submitted_at: clone_opt_string(&r.submitted_at),
        payload: r.payload.clone(),
    }
}

fn clone_raw_workflow(r: &RawWorkflowRun) -> (c: RawWorkflowRun)
    ensures
        c == *r,
{
    RawWorkflowRun {
        id: r.id,
        name: clone_opt_string(&r.name),
        head_branch: clone_opt_string(&r.head_branch),
        conclusion: clone_opt_string(&r.conclusion),
        created_at: clone_opt_string(&r.created_at),
        updated_at: clone_opt_string(&r.updated_at),
    }
}

fn clone_raw_star(r: &RawStar) -> (c: RawStar)
    ensures
        c == *r,
{
    RawStar { user: clone_opt_string(&r.user), starred_at: clone_opt_string(&r.starred_at) }
}

fn clone_star_row(r: &StarRow) -> (c: StarRow)
    ensures
        c == *r,
{
    StarRow { repo: r.repo.clone(), user: r.user.clone(), starred_at: r.starred_at }
}

/// Whether one of the strings equals `s`.
#[verifier::loop_isolation(false)]
pub fn contains_str(v: &Vec<String>, s: &str) -> (r: bool)
    ensures
        r == view_rows(v@).contains(s@),
{
    let n = v.len();
    let mut i: usize = 0;
    while i < n
        invariant
            i <= n,
            forall|j: int| 0 <= j < i ==> view_rows(v@)[j] != s@,
        decreases n - i,
    {
        if str_eq(v[i].as_str(), s) {
            proof {
                assert(view_rows(v@)[i as int] == s@);
            }
            return true;
        }
        i += 1;
    }
    proof {
        assert(forall|j: int| 0 <= j < view_rows(v@).len() ==> view_rows(v@)[j] != s@);
    }
    false
}

// ---------------------------------------------------------------------------
// Page application: pull requests
// ---------------------------------------------------------------------------

/// A record older than the watermark: on an update-descending listing the
/// scan stops here.
pub open spec fn spec_pr_stale(raw: RawPr, since: i64) -> bool {
    match spec_parse_opt(raw.updated_at) {
        Some(u) => u < since,
        None => false,
    }
}

/// A record at or after the watermark, whose reviews are re-fetched.
pub open spec fn spec_pr_fresh(raw: RawPr, since: i64) -> bool {
    match spec_parse_opt(raw.updated_at) {
        Some(u) => u >= since,
        None => false,
    }
}

/// The stop predicate of the pull-request scan.
pub open spec fn pr_stale_pred(since: i64) -> spec_fn(RawPr) -> bool {
    |r: RawPr| spec_pr_stale(r, since)
}

/// Index where the pull-request scan stops.
pub open spec fn spec_pr_cut(page: Seq<RawPr>, since: i64) -> int {
    cut_at(page, pr_stale_pred(since))
}

/// One upsert of the pull-request fold.
pub open spec fn pr_upsert_step(repo: Seq<char>) -> spec_fn(Seq<PrRowV>, RawPr) -> Seq<PrRowV> {
    |acc: Seq<PrRowV>, raw: RawPr| upsert_seq(acc, spec_pr_row(raw, repo), pr_key())
}

/// The pull-request table after one page is applied: every record before
/// the cut upserted, in page order.
pub open spec fn spec_apply_pr_page(
    prs: Seq<PrRowV>,
    page: Seq<RawPr>,
    repo: Seq<char>,
    since: i64,
) -> Seq<PrRowV> {
    page.take(spec_pr_cut(page, since)).fold_left(prs, pr_upsert_step(repo))
}

/// One step of the review-target fold.
pub open spec fn review_target_step(since: i64) -> spec_fn(Seq<i64>, RawPr) -> Seq<i64> {
    |acc: Seq<i64>, raw: RawPr| if spec_pr_fresh(raw, since) {
        acc.push(raw.number)
    } else {
        acc
    }
}

/// The numbers of the pull requests whose review lists are re-fetched:
/// those before the cut whose update instant is at or after the watermark.
pub open spec fn spec_pr_review_targets(page: Seq<RawPr>, since: i64) -> Seq<i64> {
    page.take(spec_pr_cut(page, since)).fold_left(Seq::empty(), review_target_step(since))
}

/// A page whose first record is already older than the watermark changes
/// nothing: re-running a sync against an advanced watermark is a no-op.
pub proof fn lemma_stale_page_noop(
    prs: Seq<PrRowV>,
    page: Seq<RawPr>,
    repo: Seq<char>,
    since: i64,
)
    requires
        page.len() > 0,
        spec_pr_stale(page[0], since),
    ensures
        spec_apply_pr_page(prs, page, repo, since) == prs,
{
    lemma_cut_at(page, pr_stale_pred(since), 0);
    assert(page.take(0) =~= Seq::<RawPr>::empty());
}

/// Apply one page of the update-descending pull-request listing: upsert
/// records until one is older than the watermark, and report whether the
/// next page should be fetched, together with the pull requests whose
/// reviews need re-fetching.
#[verifier::loop_isolation(false)]
pub fn apply_pr_page(store: &mut Store, repo: &str, page: &Vec<RawPr>, since: i64) -> (r: (
    bool,
    Vec<i64>,
))
    ensures
        final(store)@ =~= (StoreV {
            prs: spec_apply_pr_page(old(store)@.prs, page@, repo@, since),
            ..old(store)@
        }),
        r.0 == (spec_pr_cut(page@, since) == page@.len()),
        r.1@ == spec_pr_review_targets(page@, since),
        old(store)@.wf() ==> final(store)@.wf(),
{
    let n = page.len();
    let mut targets: Vec<i64> = Vec::new();
    let mut i: usize = 0;
    while i < n
        invariant
            i <= n,
            store@ =~= (StoreV {
                prs: page@.take(i as int).fold_left(old(store)@.prs, pr_upsert_step(repo@)),
                ..old(store)@
            }),
            targets@ == page@.take(i as int).fold_left(
                Seq::<i64>::empty(),
                review_target_step(since),
            ),
            forall|j: int| 0 <= j < i ==> !#[trigger] pr_stale_pred(since)(page@[j]),
            old(store)@.wf() ==> store@.wf(),
        decreases n - i,
    {
        let upd = parse_opt_ts(&page[i].updated_at);
        let stale = match upd {
            Some(u) => u < since,
            None => false,
        };
        proof {
            assert(page@.take(i + 1).drop_last() =~= page@.take(i as int));
            assert(page@.take(i + 1).last() == page@[i as int]);
        }
        if stale {
            proof {
                lemma_cut_at(page@, pr_stale_pred(since), i as int);
            }
            return (false, targets);
        }
        let fresh = match upd {
            Some(u) => u >= since,
            None => false,
        };
        if fresh {
            targets.push(page[i].number);
        }
        let raw = clone_raw_pr(&page[i]);
        let row = pr_row_from_raw(raw, repo);
        store.upsert_pr(row);
        i += 1;
    }
    proof {
        lemma_cut_at(page@, pr_stale_pred(since), n as int);
        assert(page@.take(n as int) =~= page@);
    }
    (true, targets)
}

// ---------------------------------------------------------------------------
// Page application: issues
// ---------------------------------------------------------------------------

/// A record older than the watermark; an unparseable update instant counts
/// as current (the clock fallback).
pub open spec fn spec_issue_stale(raw: RawIssue, since: i64, now: i64) -> bool {
    (match spec_parse_opt(raw.updated_at) {
        Some(u) => u as int,
        None => now as int,
    }) < since
}

/// The stop predicate of the issue scan.
pub open spec fn issue_stale_pred(since: i64, now: i64) -> spec_fn(RawIssue) -> bool {
    |r: RawIssue| spec_issue_stale(r, since, now)
}

/// Index where the issue scan stops.
pub open spec fn spec_issue_cut(page: Seq<RawIssue>, since: i64, now: i64) -> int {
    cut_at(page, issue_stale_pred(since, now))
}

/// One step of the issue fold: records carrying the pull-request marker
/// are skipped; a deleted row is never overwritten.
pub open spec fn issue_upsert_step(repo: Seq<char>) -> spec_fn(
    Seq<IssueRowV>,
    RawIssue,
) -> Seq<IssueRowV> {
    |acc: Seq<IssueRowV>, raw: RawIssue|
        if raw.is_pull_request {
            acc
        } else {
            upsert_issue_spec(acc, spec_issue_row(raw, repo))
        }
}

/// The issue table after one page is applied.
pub open spec fn spec_apply_issue_page(
    issues: Seq<IssueRowV>,
    page: Seq<RawIssue>,
    repo: Seq<char>,
    since: i64,
    now: i64,
) -> Seq<IssueRowV> {
    page.take(spec_issue_cut(page, since, now)).fold_left(issues, issue_upsert_step(repo))
}

/// A page whose first record is already older than the watermark changes
/// nothing: re-running a sync against an advanced watermark is a no-op.
pub proof fn lemma_stale_issue_page_noop(
    issues: Seq<IssueRowV>,
    page: Seq<RawIssue>,
    repo: Seq<char>,
    since: i64,
    now: i64,
)
    requires
        page.len() > 0,
        spec_issue_stale(page[0], since, now),
    ensures
        spec_apply_issue_page(issues, page, repo, since, now) == issues,
{
    lemma_cut_at(page, issue_stale_pred(since, now), 0);
    assert(page.take(0) =~= Seq::<RawIssue>::empty());
}

/// Apply one page of the update-descending issue listing. Returns whether
/// the next page should be fetched. Issues already marked deleted stay
/// deleted.
#[verifier::loop_isolation(false)]
pub fn apply_issue_page(
    store: &mut Store,
    repo: &str,
    page: &Vec<RawIssue>,
    since: i64,
    now: i64,
) -> (keep: bool)
    ensures
        final(store)@ =~= (StoreV {
            issues: spec_apply_issue_page(old(store)@.issues, page@, repo@, since, now),
            ..old(store)@
        }),
        keep == (spec_issue_cut(page@, since, now) == page@.len()),
        old(store)@.wf() ==> final(store)@.wf(),
        forall|j: int|
            0 <= j < old(store)@.issues.len() && (#[trigger] old(store)@.issues[j]).state
                == IssueState::Deleted ==> j < final(store)@.issues.len()
                && final(store)@.issues[j].state == IssueState::Deleted,
{
    let n = page.len();
    let mut i: usize = 0;
    while i < n
        invariant
            i <= n,
            store@ =~= (StoreV {
                issues: page@.take(i as int).fold_left(old(store)@.issues, issue_upsert_step(repo@)),
                ..old(store)@
            }),
            forall|j: int| 0 <= j < i ==> !#[trigger] issue_stale_pred(since, now)(page@[j]),
            old(store)@.wf() ==> store@.wf(),
            forall|j: int|
                0 <= j < old(store)@.issues.len() && (#[trigger] old(store)@.issues[j]).state
                    == IssueState::Deleted ==> j < store@.issues.len() && store@.issues[j].state
                    == IssueState::Deleted,
        decreases n - i,
    {
        let upd = parse_opt_ts(&page[i].updated_at);
        let effective: i64 = match upd {
            Some(u) => u,
            None => now,
        };
        proof {
            assert(page@.take(i + 1).drop_last() =~= page@.take(i as int));
            assert(page@.take(i + 1).last() == page@[i as int]);
        }
        if effective < since {
            proof {
                lemma_cut_at(page@, issue_stale_pred(since, now), i as int);
            }
            return false;
        }
        if !page[i].is_pull_request {
            let raw = clone_raw_issue(&page[i]);
            let row = issue_row_from_raw(raw, repo);
            store.upsert_issue(row);
        }
        i += 1;
    }
    proof {
        lemma_cut_at(page@, issue_stale_pred(since, now), n as int);
        assert(page@.take(n as int) =~= page@);
    }
    true
}

// ---------------------------------------------------------------------------
// Page application: comments (issue comments and review comments)
// ---------------------------------------------------------------------------

/// A comment older than the watermark; an unparseable update instant
/// counts as current.
pub open spec fn spec_comment_stale(raw: RawComment, since: i64, now: i64) -> bool {
    (match spec_parse_opt(raw.updated_at) {
        Some(u) => u as int,
        None => now as int,
    }) < since
}

/// The stop predicate of a comment scan.
pub open spec fn comment_stale_pred(since: i64, now: i64) -> spec_fn(RawComment) -> bool {
    |r: RawComment| spec_comment_stale(r, since, now)
}

/// Index where a comment scan stops.
pub open spec fn spec_comment_cut(page: Seq<RawComment>, since: i64, now: i64) -> int {
    cut_at(page, comment_stale_pred(since, now))
}

/// One upsert of a comment fold.
pub open spec fn comment_upsert_step(repo: Seq<char>) -> spec_fn(
    Seq<CommentRowV>,
    RawComment,
) -> Seq<CommentRowV> {
    |acc: Seq<CommentRowV>, raw: RawComment|
        upsert_seq(acc, spec_comment_row(raw, repo), comment_key())
}

/// A comment table after one page is applied.
pub open spec fn spec_apply_comment_page(
    comments: Seq<CommentRowV>,
    page: Seq<RawComment>,
    repo: Seq<char>,
    since: i64,
    now: i64,
) -> Seq<CommentRowV> {
    page.take(spec_comment_cut(page, since, now)).fold_left(comments, comment_upsert_step(repo))
}

/// A page whose first comment is already older than the watermark changes
/// nothing: re-running a sync against an advanced watermark is a no-op.
pub proof fn lemma_stale_comment_page_noop(
    comments: Seq<CommentRowV>,
    page: Seq<RawComment>,
    repo: Seq<char>,
    since: i64,
    now: i64,
)
    requires
        page.len() > 0,
        spec_comment_stale(page[0], since, now),
    ensures
        spec_apply_comment_page(comments, page, repo, since, now) == comments,
{
    lemma_cut_at(page, comment_stale_pred(since, now), 0);
    assert(page.take(0) =~= Seq::<RawComment>::empty());
}

/// Apply one page of the update-descending issue-comment listing.
#[verifier::loop_isolation(false)]
pub fn apply_issue_comment_page(
    store: &mut Store,
    repo: &str,
    page: &Vec<RawComment>,
    since: i64,
    now: i64,
) -> (keep: bool)
    ensures
        final(store)@ =~= (StoreV {
            issue_comments: spec_apply_comment_page(
                old(store)@.issue_comments,
                page@,
                repo@,
                since,
                now,
            ),
            ..old(store)@
        }),
        keep == (spec_comment_cut(page@, since, now) == page@.len()),
        old(store)@.wf() ==> final(store)@.wf(),
{
    let n = page.len();
    let mut i: usize = 0;
    while i < n
        invariant
            i <= n,
            store@ =~= (StoreV {
                issue_comments: page@.take(i as int).fold_left(
                    old(store)@.issue_comments,
                    comment_upsert_step(repo@),
                ),
                ..old(store)@
            }),
            forall|j: int| 0 <= j < i ==> !#[trigger] comment_stale_pred(since, now)(page@[j]),
            old(store)@.wf() ==> store@.wf(),
        decreases n - i,
    {
        let upd = parse_opt_ts(&page[i].updated_at);
        let effective: i64 = match upd {
            Some(u) => u,
            None => now,
        };
        proof {
            assert(page@.take(i + 1).drop_last() =~= page@.take(i as int));
            assert(page@.take(i + 1).last() == page@[i as int]);
        }
        if effective < since {
            proof {
                lemma_cut_at(page@, comment_stale_pred(since, now), i as int);
            }
            return false;
        }
        let raw = clone_raw_comment(&page[i]);
        let row = comment_row_from_raw(raw, repo);
        store.upsert_issue_comment(row);
        i += 1;
    }
    proof {
        lemma_cut_at(page@, comment_stale_pred(since, now), n as int);
        assert(page@.take(n as int) =~= page@);
    }
    true
}

/// Apply one page of the update-descending review-comment listing.
#[verifier::loop_isolation(false)]
pub fn apply_pr_comment_page(
    store: &mut Store,
    repo: &str,
    page: &Vec<RawComment>,
    since: i64,
    now: i64,
) -> (keep: bool)
    ensures
        final(store)@ =~= (StoreV {
            pr_review_comments: spec_apply_comment_page(
                old(store)@.pr_review_comments,
                page@,
                repo@,
                since,
                now,
            ),
            ..old(store)@
        }),
        keep == (spec_comment_cut(page@, since, now) == page@.len()),
        old(store)@.wf() ==> final(store)@.wf(),
{
    let n = page.len();
    let mut i: usize = 0;
    while i < n
        invariant
            i <= n,
            store@ =~= (StoreV {
                pr_review_comments: page@.take(i as int).fold_left(
                    old(store)@.pr_review_comments,
                    comment_upsert_step(repo@),
                ),
                ..old(store)@
            }),
            forall|j: int| 0 <= j < i ==> !#[trigger] comment_stale_pred(since, now)(page@[j]),
            old(store)@.wf() ==> store@.wf(),
        decreases n - i,
    {
        let upd = parse_opt_ts(&page[i].updated_at);
        let effective: i64 = match upd {
            Some(u) => u,
            None => now,
        };
        proof {
            assert(page@.take(i + 1).drop_last() =~= page@.take(i as int));
            assert(page@.take(i + 1).last() == page@[i as int]);
        }
        if effective < since {
            proof {
                lemma_cut_at(page@, comment_stale_pred(since, now), i as int);
            }
            return false;
        }
        let raw = clone_raw_comment(&page[i]);
        let row = comment_row_from_raw(raw, repo);
        store.upsert_pr_review_comment(row);
        i += 1;
    }
    proof {
        lemma_cut_at(page@, comment_stale_pred(since, now), n as int);
        assert(page@.take(n as int) =~= page@);
    }
    true
}

// ---------------------------------------------------------------------------
// Page application: reviews, workflow runs, stargazers
// ---------------------------------------------------------------------------

/// One upsert of the review fold.
pub open spec fn review_upsert_step(repo: Seq<char>, pr_number: i64) -> spec_fn(
    Seq<ReviewRowV>,
    RawReview,
) -> Seq<ReviewRowV> {
    |acc: Seq<ReviewRowV>, raw: RawReview|
        upsert_seq(acc, spec_review_row(raw, repo, pr_number), review_key())
}

/// Apply one page of a pull request's review listing (no watermark: the
/// whole page is stored).
#[verifier::loop_isolation(false)]
pub fn apply_review_page(store: &mut Store, repo: &str, pr_number: i64, page: &Vec<RawReview>)
    ensures
        final(store)@ =~= (StoreV {
            pr_reviews: page@.fold_left(
                old(store)@.pr_reviews,
                review_upsert_step(repo@, pr_number),
            ),
            ..old(store)@
        }),
        old(store)@.wf() ==> final(store)@.wf(),
{
    let n = page.len();
    let mut i: usize = 0;
    while i < n
        invariant
            i <= n,
            store@ =~= (StoreV {
                pr_reviews: page@.take(i as int).fold_left(
                    old(store)@.pr_reviews,
                    review_upsert_step(repo@, pr_number),
                ),
                ..old(store)@
            }),
            old(store)@.wf() ==> store@.wf(),
        decreases n - i,
    {
        proof {
            assert(page@.take(i + 1).drop_last() =~= page@.take(i as int));
            assert(page@.take(i + 1).last() == page@[i as int]);
        }
        let raw = clone_raw_review(&page[i]);
        let row = review_row_from_raw(raw, repo, pr_number);
        store.upsert_review(row);
        i += 1;
    }
    proof {
        assert(page@.take(n as int) =~= page@);
    }
}

/// One upsert of the workflow-run fold.
pub open spec fn workflow_upsert_step(repo: Seq<char>, now: i64) -> spec_fn(
    Seq<WorkflowRowV>,
    RawWorkflowRun,
) -> Seq<WorkflowRowV> {
    |acc: Seq<WorkflowRowV>, raw: RawWorkflowRun|
        upsert_seq(acc, spec_workflow_row(raw, repo, now), workflow_key())
}

/// Apply one page of the workflow-run listing (the window is applied by
/// the remote filter; the whole page is stored).
#[verifier::loop_isolation(false)]
pub fn apply_workflow_page(store: &mut Store, repo: &str, page: &Vec<RawWorkflowRun>, now: i64)
    requires
        ts_in_range(now),
    ensures
        final(store)@ =~= (StoreV {
            workflow_runs: page@.fold_left(
                old(store)@.workflow_runs,
                workflow_upsert_step(repo@, now),
            ),
            ..old(store)@
        }),
        old(store)@.wf() ==> final(store)@.wf(),
{
    let n = page.len();
    let mut i: usize = 0;
    while i < n
        invariant
            i <= n,
            store@ =~= (StoreV {
                workflow_runs: page@.take(i as int).fold_left(
                    old(store)@.workflow_runs,
                    workflow_upsert_step(repo@, now),
                ),
                ..old(store)@
            }),
            old(store)@.wf() ==> store@.wf(),
        decreases n - i,
    {
        proof {
            assert(page@.take(i + 1).drop_last() =~= page@.take(i as int));
            assert(page@.take(i + 1).last() == page@[i as int]);
        }
        let raw = clone_raw_workflow(&page[i]);
        let row = workflow_row_from_raw(raw, repo, now);
        store.upsert_workflow(row);
        i += 1;
    }
    proof {
        assert(page@.take(n as int) =~= page@);
    }
}

/// One upsert of the stargazer fold; an incomplete entry changes nothing.
pub open spec fn star_upsert_step(repo: Seq<char>) -> spec_fn(
    Seq<StarRowV>,
    RawStar,
) -> Seq<StarRowV> {
    |acc: Seq<StarRowV>, raw: RawStar|
        match spec_star_row(raw, repo) {
            Some(v) => upsert_seq(acc, v, star_key()),
            None => acc,
        }
}

/// One step of the fold collecting the users seen on a stargazer page.
pub open spec fn star_user_step() -> spec_fn(Seq<Seq<char>>, RawStar) -> Seq<Seq<char>> {
    |acc: Seq<Seq<char>>, raw: RawStar|
        match (raw.user, raw.starred_at) {
            (Some(u), Some(t)) => acc.push(u@),
            _ => acc,
        }
}

/// Apply one page of the stargazer listing, returning the users it names
/// (the remote set grows across pages; stars absent from the full set are
/// pruned afterwards).
#[verifier::loop_isolation(false)]
pub fn apply_star_page(store: &mut Store, repo: &str, page: &Vec<RawStar>) -> (users: Vec<String>)
    ensures
        final(store)@ =~= (StoreV {
            stargazers: page@.fold_left(old(store)@.stargazers, star_upsert_step(repo@)),
            ..old(store)@
        }),
        view_rows(users@) == page@.fold_left(Seq::<Seq<char>>::empty(), star_user_step()),
        old(store)@.wf() ==> final(store)@.wf(),
{
    let n = page.len();
    let mut users: Vec<String> = Vec::new();
    let mut i: usize = 0;
    while i < n
        invariant
            i <= n,
            store@ =~= (StoreV {
                stargazers: page@.take(i as int).fold_left(
                    old(store)@.stargazers,
                    star_upsert_step(repo@),
                ),
                ..old(store)@
            }),
            view_rows(users@) =~= page@.take(i as int).fold_left(
                Seq::<Seq<char>>::empty(),
                star_user_step(),
            ),
            old(store)@.wf() ==> store@.wf(),
        decreases n - i,
    {
        proof {
            assert(page@.take(i + 1).drop_last() =~= page@.take(i as int));
            assert(page@.take(i + 1).last() == page@[i as int]);
        }
        let raw = clone_raw_star(&page[i]);
        match star_row_from_raw(raw, repo) {
            Some(row) => {
                proof {
                    assert(view_rows(users@.push(row.user)) =~= view_rows(users@).push(
                        row.user@,
                    ));
                }
                users.push(row.user.clone());
                store.upsert_star(row);
            },
            None => {},
        }
        i += 1;
    }
    proof {
        assert(page@.take(n as int) =~= page@);
    }
    users
}

/// Rows kept by the stargazer prune: those of other repositories, and
/// those whose user the remote set still names.
pub open spec fn star_keep_pred(repo: Seq<char>, keep: Seq<Seq<char>>) -> spec_fn(
    StarRowV,
) -> bool {
    |s: StarRowV| s.repo != repo || keep.contains(s.user)
}

/// Delete this repository's stargazer rows whose user is absent from the
/// full remote set (a star has no closed state, so the row goes away).
#[verifier::loop_isolation(false)]
pub fn prune_stars(store: &mut Store, repo: &str, keep_users: &Vec<String>)
    ensures
        final(store)@ =~= (StoreV {
            stargazers: old(store)@.stargazers.filter(
                star_keep_pred(repo@, view_rows(keep_users@)),
            ),
            ..old(store)@
        }),
        old(store)@.wf() ==> final(store)@.wf(),
{
    broadcast use vstd::seq::Seq::lemma_filter_push;

    let ghost pred = star_keep_pred(repo@, view_rows(keep_users@));
    let n = store.stargazers.len();
    let mut kept: Vec<StarRow> = Vec::new();
    let mut i: usize = 0;
    while i < n
        invariant
            i <= n,
            n == store.stargazers@.len(),
            store@ == old(store)@,
            view_rows(kept@) =~= old(store)@.stargazers.take(i as int).filter(pred),
            pred == star_keep_pred(repo@, view_rows(keep_users@)),
        decreases n - i,
    {
        proof {
            let t = old(store)@.stargazers;
            assert(t.take(i + 1) =~= t.take(i as int).push(t[i as int]));
            t.take(i as int).lemma_filter_push(t[i as int], pred);
        }
        let row = &store.stargazers[i];
        let keep = !str_eq(row.repo.as_str(), repo) || contains_str(keep_users, row.user.as_str());
        proof {
            assert(keep == pred(old(store)@.stargazers[i as int]));
        }
        if keep {
            let c = clone_star_row(&store.stargazers[i]);
            proof {
                assert(view_rows(kept@.push(c)) =~= view_rows(kept@).push(c@));
            }
            kept.push(c);
        }
        i += 1;
    }
    proof {
        let t = old(store)@.stargazers;
        assert(t.take(n as int) =~= t);
        if old(store)@.wf() {
            lemma_filter_unique(t, pred, star_key());
            let f = t.filter(pred);
            assert forall|k: int| 0 <= k < f.len() implies star_ts_wf(#[trigger] f[k]) by {
                assert(f.contains(f[k]));
                t.lemma_filter_contains_rev(pred, f[k]);
                let j = choose|j: int| 0 <= j < t.len() && t[j] == f[k];
                assert(star_ts_wf(t[j]));
            }
        }
    }
    store.stargazers = kept;
}

// ---------------------------------------------------------------------------
// Commits: presence check before the detail fetch
// ---------------------------------------------------------------------------

/// The shas of a commit page that still need a detail fetch: those not yet
/// stored, each listed once. A commit already present is never fetched
/// again (the cost-avoidance invariant: commits are immutable).
#[verifier::loop_isolation(false)]
pub fn missing_shas(store: &Store, shas: &Vec<String>) -> (r: Vec<String>)
    ensures
        view_rows(r@).no_duplicates(),
        forall|k: int|
            0 <= k < r@.len() ==> view_rows(shas@).contains(#[trigger] view_rows(r@)[k])
                && !spec_commit_present(store@, view_rows(r@)[k]),
        forall|k: int|
            0 <= k < shas@.len() && !spec_commit_present(store@, #[trigger] view_rows(shas@)[k])
                ==> view_rows(r@).contains(view_rows(shas@)[k]),
{
    broadcast use vstd::seq_lib::group_seq_properties;

    let n = shas.len();
    let mut out: Vec<String> = Vec::new();
    let mut i: usize = 0;
    while i < n
        invariant
            i <= n,
            view_rows(out@).no_duplicates(),
            forall|k: int|
                0 <= k < out@.len() ==> view_rows(shas@).contains(#[trigger] view_rows(out@)[k])
                    && !spec_commit_present(store@, view_rows(out@)[k]),
            forall|k: int|
                0 <= k < i && !spec_commit_present(store@, #[trigger] view_rows(shas@)[k])
                    ==> view_rows(out@).contains(view_rows(shas@)[k]),
        decreases n - i,
    {
        let s = &shas[i];
        if !store.commit_present(s.as_str()) && !contains_str(&out, s.as_str()) {
            let c = s.clone();
            proof {
                assert(view_rows(out@.push(c)) =~= view_rows(out@).push(c@));
                assert(view_rows(shas@)[i as int] == c@);
            }
            out.push(c);
        }
        i += 1;
    }
    out
}

/// Store the detail of one newly seen commit.
pub fn record_commit(store: &mut Store, sha: String, repo: &str, d: RawCommitDetail)
    ensures
        final(store)@ =~= (StoreV {
            commits: upsert_seq(old(store)@.commits, spec_commit_row(sha, repo@, d), commit_key()),
            ..old(store)@
        }),
        old(store)@.wf() ==> final(store)@.wf(),
{
    let row = commit_row_from_detail(sha, repo, d);
    store.upsert_commit(row);
}

} // verus!
