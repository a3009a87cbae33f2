//! The local mirror store: one in-memory table per entity, each a sequence
//! of rows with a unique key, plus the per-repository checkpoints and the
//! derived daily metrics.
//!
//! Every mutation is a replace-by-key upsert (full-row semantics); the one
//! exception is the issue table, where a row in the terminal `Deleted`
//! state is never overwritten.

use crate::metrics::MetricRow;
use crate::metrics::MetricRowV;
use crate::rows::IssueState;
use crate::rows::{
    CheckpointRow, CheckpointRowV, CommentRow, CommentRowV, CommitRow, CommitRowV, IssueRow,
    IssueRowV, PrRow, PrRowV, ReviewRow, ReviewRowV, StarRow, StarRowV, WorkflowRow, WorkflowRowV,
};
use crate::strutil::str_eq;
use crate::table::{
    find_by, lemma_find_at, lemma_find_none, lemma_map_push, lemma_map_update, lemma_upsert_absent,
    lemma_upsert_at, lemma_upsert_find, lemma_upsert_preserves, lemma_upsert_unique, unique_keys,
    upsert_seq,
};
use crate::time::opt_ts_in_range;
use vstd::prelude::*;

verus! {

/// Key of a pull-request row.
pub open spec fn pr_key() -> spec_fn(PrRowV) -> int {
    |p: PrRowV| p.id
}

/// Key of an issue row.
pub open spec fn issue_key() -> spec_fn(IssueRowV) -> int {
    |r: IssueRowV| r.id
}

/// Key of a comment row.
pub open spec fn comment_key() -> spec_fn(CommentRowV) -> int {
    |c: CommentRowV| c.id
}

/// Key of a review row.
pub open spec fn review_key() -> spec_fn(ReviewRowV) -> int {
    |r: ReviewRowV| r.id
}

/// Key of a stargazer row.
pub open spec fn star_key() -> spec_fn(StarRowV) -> (Seq<char>, Seq<char>) {
    |s: StarRowV| (s.repo, s.user)
}

/// Key of a commit row.
pub open spec fn commit_key() -> spec_fn(CommitRowV) -> Seq<char> {
    |c: CommitRowV| c.sha
}

/// Key of a workflow-run row.
pub open spec fn workflow_key() -> spec_fn(WorkflowRowV) -> int {
    |w: WorkflowRowV| w.id
}

/// Key of a checkpoint row.
pub open spec fn checkpoint_key() -> spec_fn(CheckpointRowV) -> (Seq<char>, Seq<char>) {
    |c: CheckpointRowV| (c.org, c.repo)
}

/// The views of the rows of one table.
pub open spec fn view_rows<R: View>(s: Seq<R>) -> Seq<R::V> {
    s.map_values(|r: R| r@)
}

/// The mirrored store.
pub struct Store {
    pub prs: Vec<PrRow>,
    pub issues: Vec<IssueRow>,
    pub issue_comments: Vec<CommentRow>,
    pub pr_review_comments: Vec<CommentRow>,
    pub pr_reviews: Vec<ReviewRow>,
    pub stargazers: Vec<StarRow>,
    pub commits: Vec<CommitRow>,
    pub workflow_runs: Vec<WorkflowRow>,
    pub checkpoints: Vec<CheckpointRow>,
    pub daily_metrics: Vec<MetricRow>,
}

/// The mathematical content of the store.
#[verifier::ext_equal]
pub struct StoreV {
    pub prs: Seq<PrRowV>,
    pub issues: Seq<IssueRowV>,
    pub issue_comments: Seq<CommentRowV>,
    pub pr_review_comments: Seq<CommentRowV>,
    pub pr_reviews: Seq<ReviewRowV>,
    pub stargazers: Seq<StarRowV>,
    pub commits: Seq<CommitRowV>,
    pub workflow_runs: Seq<WorkflowRowV>,
    pub checkpoints: Seq<CheckpointRowV>,
    pub daily_metrics: Seq<MetricRowV>,
}

impl View for Store {
    type V = StoreV;

    open spec fn view(&self) -> StoreV {
        StoreV {
            prs: view_rows(self.prs@),
            issues: view_rows(self.issues@),
            issue_comments: view_rows(self.issue_comments@),
            pr_review_comments: view_rows(self.pr_review_comments@),
            pr_reviews: view_rows(self.pr_reviews@),
            stargazers: view_rows(self.stargazers@),
            commits: view_rows(self.commits@),
            workflow_runs: view_rows(self.workflow_runs@),
            checkpoints: view_rows(self.checkpoints@),
            daily_metrics: view_rows(self.daily_metrics@),
        }
    }
}

/// All instants of a pull-request row are representable.
pub open spec fn pr_ts_wf(p: PrRowV) -> bool {
    &&& opt_ts_in_range(p.created_at)
    &&& opt_ts_in_range(p.updated_at)
    &&& opt_ts_in_range(p.merged_at)
    &&& opt_ts_in_range(p.closed_at)
}

/// All instants of an issue row are representable.
pub open spec fn issue_ts_wf(r: IssueRowV) -> bool {
    &&& opt_ts_in_range(r.created_at)
    &&& opt_ts_in_range(r.updated_at)
    &&& opt_ts_in_range(r.closed_at)
    &&& opt_ts_in_range(r.deleted_at)
}

/// All instants of a comment row are representable.
pub open spec fn comment_ts_wf(c: CommentRowV) -> bool {
    &&& opt_ts_in_range(c.created_at)
    &&& opt_ts_in_range(c.updated_at)
}

/// All instants of a review row are representable.
pub open spec fn review_ts_wf(r: ReviewRowV) -> bool {
    opt_ts_in_range(r.submitted_at)
}

/// All instants of a stargazer row are representable.
pub open spec fn star_ts_wf(s: StarRowV) -> bool {
    opt_ts_in_range(s.starred_at)
}

/// All instants of a commit row are representable.
pub open spec fn commit_ts_wf(c: CommitRowV) -> bool {
    opt_ts_in_range(c.date)
}

/// All instants of a workflow-run row are representable.
pub open spec fn workflow_ts_wf(w: WorkflowRowV) -> bool {
    &&& opt_ts_in_range(w.created_at)
    &&& opt_ts_in_range(w.updated_at)
}

impl StoreV {
    /// Store invariant: every table has unique keys and every stored
    /// instant is representable.
    pub open spec fn wf(self) -> bool {
        &&& unique_keys(self.prs, pr_key())
        &&& unique_keys(self.issues, issue_key())
        &&& unique_keys(self.issue_comments, comment_key())
        &&& unique_keys(self.pr_review_comments, comment_key())
        &&& unique_keys(self.pr_reviews, review_key())
        &&& unique_keys(self.stargazers, star_key())
        &&& unique_keys(self.commits, commit_key())
        &&& unique_keys(self.workflow_runs, workflow_key())
        &&& unique_keys(self.checkpoints, checkpoint_key())
        &&& (forall|i: int| 0 <= i < self.prs.len() ==> pr_ts_wf(#[trigger] self.prs[i]))
        &&& (forall|i: int| 0 <= i < self.issues.len() ==> issue_ts_wf(#[trigger] self.issues[i]))
        &&& (forall|i: int|
            0 <= i < self.issue_comments.len() ==> comment_ts_wf(
                #[trigger] self.issue_comments[i],
            ))
        &&& (forall|i: int|
            0 <= i < self.pr_review_comments.len() ==> comment_ts_wf(
                #[trigger] self.pr_review_comments[i],
            ))
        &&& (forall|i: int|
            0 <= i < self.pr_reviews.len() ==> review_ts_wf(#[trigger] self.pr_reviews[i]))
        &&& (forall|i: int|
            0 <= i < self.stargazers.len() ==> star_ts_wf(#[trigger] self.stargazers[i]))
        &&& (forall|i: int| 0 <= i < self.commits.len() ==> commit_ts_wf(#[trigger] self.commits[i]))
        &&& (forall|i: int|
            0 <= i < self.workflow_runs.len() ==> workflow_ts_wf(
                #[trigger] self.workflow_runs[i],
            ))
    }
}

/// Replace-or-keep semantics of the issue table: a row in the terminal
/// `Deleted` state wins over any incoming record.
pub open spec fn upsert_issue_spec(s: Seq<IssueRowV>, r: IssueRowV) -> Seq<IssueRowV> {
    match find_by(s, issue_key()(r), issue_key()) {
        Some(e) => if e.state == IssueState::Deleted {
            s
        } else {
            upsert_seq(s, r, issue_key())
        },
        None => upsert_seq(s, r, issue_key()),
    }
}

/// A commit with this sha is in the table.
pub open spec fn spec_commit_present(s: StoreV, sha: Seq<char>) -> bool {
    exists|i: int| 0 <= i < s.commits.len() && (#[trigger] s.commits[i]).sha == sha
}

/// The stored watermark of `(org, repo)`, or the epoch when absent.
pub open spec fn spec_checkpoint(s: StoreV, org: Seq<char>, repo: Seq<char>) -> i64 {
    match find_by(s.checkpoints, (org, repo), checkpoint_key()) {
        Some(c) => c.synced_at,
        None => 0,
    }
}

// ---------------------------------------------------------------------------
// Read-only index scans, one per table
// ---------------------------------------------------------------------------

#[verifier::loop_isolation(false)]
fn pr_index(v: &Vec<PrRow>, id: i64) -> (r: Option<usize>)
    ensures
        match r {
            Some(i) => i < v@.len() && view_rows(v@)[i as int].id == id as int && (forall|j: int|
                0 <= j < i ==> view_rows(v@)[j].id != id as int),
            None => forall|j: int| 0 <= j < v@.len() ==> view_rows(v@)[j].id != id as int,
        },
{
    let n = v.len();
    let mut i: usize = 0;
    while i < n
        invariant
            i <= n,
            forall|j: int| 0 <= j < i ==> view_rows(v@)[j].id != id as int,
        decreases n - i,
    {
        if v[i].id == id {
            return Some(i);
        }
        i += 1;
    }
    None
}

#[verifier::loop_isolation(false)]
fn issue_index(v: &Vec<IssueRow>, id: i64) -> (r: Option<usize>)
    ensures
        match r {
            Some(i) => i < v@.len() && view_rows(v@)[i as int].id == id as int && (forall|j: int|
                0 <= j < i ==> view_rows(v@)[j].id != id as int),
            None => forall|j: int| 0 <= j < v@.len() ==> view_rows(v@)[j].id != id as int,
        },
{
    let n = v.len();
    let mut i: usize = 0;
    while i < n
        invariant
            i <= n,
            forall|j: int| 0 <= j < i ==> view_rows(v@)[j].id != id as int,
        decreases n - i,
    {
        if v[i].id == id {
            return Some(i);
        }
        i += 1;
    }
    None
}

#[verifier::loop_isolation(false)]
fn comment_index(v: &Vec<CommentRow>, id: i64) -> (r: Option<usize>)
    ensures
        match r {
            Some(i) => i < v@.len() && view_rows(v@)[i as int].id == id as int && (forall|j: int|
                0 <= j < i ==> view_rows(v@)[j].id != id as int),
            None => forall|j: int| 0 <= j < v@.len() ==> view_rows(v@)[j].id != id as int,
        },
{
    let n = v.len();
    let mut i: usize = 0;
    while i < n
        invariant
            i <= n,
            forall|j: int| 0 <= j < i ==> view_rows(v@)[j].id != id as int,
        decreases n - i,
    {
        if v[i].id == id {
            return Some(i);
        }
        i += 1;
    }
    None
}

#[verifier::loop_isolation(false)]
fn review_index(v: &Vec<ReviewRow>, id: i64) -> (r: Option<usize>)
    ensures
        match r {
            Some(i) => i < v@.len() && view_rows(v@)[i as int].id == id as int && (forall|j: int|
                0 <= j < i ==> view_rows(v@)[j].id != id as int),
            None => forall|j: int| 0 <= j < v@.len() ==> view_rows(v@)[j].id != id as int,
        },
{
    let n = v.len();
    let mut i: usize = 0;
    while i < n
        invariant
            i <= n,
            forall|j: int| 0 <= j < i ==> view_rows(v@)[j].id != id as int,
        decreases n - i,
    {
        if v[i].id == id {
            return Some(i);
        }
        i += 1;
    }
    None
}

#[verifier::loop_isolation(false)]
fn workflow_index(v: &Vec<WorkflowRow>, id: i64) -> (r: Option<usize>)
    ensures
        match r {
            Some(i) => i < v@.len() && view_rows(v@)[i as int].id == id as int && (forall|j: int|
                0 <= j < i ==> view_rows(v@)[j].id != id as int),
            None => forall|j: int| 0 <= j < v@.len() ==> view_rows(v@)[j].id != id as int,
        },
{
    let n = v.len();
    let mut i: usize = 0;
    while i < n
        invariant
            i <= n,
            forall|j: int| 0 <= j < i ==> view_rows(v@)[j].id != id as int,
        decreases n - i,
    {
        if v[i].id == id {
            return Some(i);
        }
        i += 1;
    }
    None
}

#[verifier::loop_isolation(false)]
fn star_index(v: &Vec<StarRow>, repo: &str, user: &str) -> (r: Option<usize>)
    ensures
        match r {
            Some(i) => i < v@.len() && star_key()(view_rows(v@)[i as int]) == ((repo@, user@)) && (
            forall|j: int| 0 <= j < i ==> star_key()(view_rows(v@)[j]) != ((repo@, user@))),
            None => forall|j: int|
                0 <= j < v@.len() ==> star_key()(view_rows(v@)[j]) != ((repo@, user@)),
        },
{
    let n = v.len();
    let mut i: usize = 0;
    while i < n
        invariant
            i <= n,
            forall|j: int| 0 <= j < i ==> star_key()(view_rows(v@)[j]) != ((repo@, user@)),
        decreases n - i,
    {
        if str_eq(v[i].repo.as_str(), repo) && str_eq(v[i].user.as_str(), user) {
            return Some(i);
        }
        i += 1;
    }
    None
}

#[verifier::loop_isolation(false)]
fn commit_index(v: &Vec<CommitRow>, sha: &str) -> (r: Option<usize>)
    ensures
        match r {
            Some(i) => i < v@.len() && view_rows(v@)[i as int].sha == sha@ && (forall|j: int|
                0 <= j < i ==> view_rows(v@)[j].sha != sha@),
            None => forall|j: int| 0 <= j < v@.len() ==> view_rows(v@)[j].sha != sha@,
        },
{
    let n = v.len();
    let mut i: usize = 0;
    while i < n
        invariant
            i <= n,
            forall|j: int| 0 <= j < i ==> view_rows(v@)[j].sha != sha@,
        decreases n - i,
    {
        if str_eq(v[i].sha.as_str(), sha) {
            return Some(i);
        }
        i += 1;
    }
    None
}

#[verifier::loop_isolation(false)]
fn checkpoint_index(v: &Vec<CheckpointRow>, org: &str, repo: &str) -> (r: Option<usize>)
    ensures
        match r {
            Some(i) => i < v@.len() && checkpoint_key()(view_rows(v@)[i as int]) == ((org@, repo@))
                && (forall|j: int|
                0 <= j < i ==> checkpoint_key()(view_rows(v@)[j]) != ((org@, repo@))),
            None => forall|j: int|
                0 <= j < v@.len() ==> checkpoint_key()(view_rows(v@)[j]) != ((org@, repo@)),
        },
{
    let n = v.len();
    let mut i: usize = 0;
    while i < n
        invariant
            i <= n,
            forall|j: int| 0 <= j < i ==> checkpoint_key()(view_rows(v@)[j]) != ((org@, repo@)),
        decreases n - i,
    {
        if str_eq(v[i].org.as_str(), org) && str_eq(v[i].repo.as_str(), repo) {
            return Some(i);
        }
        i += 1;
    }
    None
}

impl Store {
    /// An empty store; establishes the invariant.
    pub fn new() -> (s: Store)
        ensures
            s@.prs =~= Seq::<PrRowV>::empty(),
            s@.issues =~= Seq::<IssueRowV>::empty(),
            s@.issue_comments =~= Seq::<CommentRowV>::empty(),
            s@.pr_review_comments =~= Seq::<CommentRowV>::empty(),
            s@.pr_reviews =~= Seq::<ReviewRowV>::empty(),
            s@.stargazers =~= Seq::<StarRowV>::empty(),
            s@.commits =~= Seq::<CommitRowV>::empty(),
            s@.workflow_runs =~= Seq::<WorkflowRowV>::empty(),
            s@.checkpoints =~= Seq::<CheckpointRowV>::empty(),
            s@.daily_metrics =~= Seq::<MetricRowV>::empty(),
            s@.wf(),
    {
        Store {
            prs: Vec::new(),
            issues: Vec::new(),
            issue_comments: Vec::new(),
            pr_review_comments: Vec::new(),
            pr_reviews: Vec::new(),
            stargazers: Vec::new(),
            commits: Vec::new(),
            workflow_runs: Vec::new(),
            checkpoints: Vec::new(),
            daily_metrics: Vec::new(),
        }
    }

    /// Replace the pull request with this id, or add it.
    pub fn upsert_pr(&mut self, row: PrRow)
        ensures
            final(self)@ =~= (StoreV {
                prs: upsert_seq(old(self)@.prs, row@, pr_key()),
                ..old(self)@
            }),
            old(self)@.wf() && pr_ts_wf(row@) ==> final(self)@.wf(),
    {
        proof {
            if old(self)@.wf() && pr_ts_wf(row@) {
                lemma_upsert_unique(old(self)@.prs, row@, pr_key());
                lemma_upsert_preserves(old(self)@.prs, row@, pr_key(), |x: PrRowV| pr_ts_wf(x));
            }
        }
        match pr_index(&self.prs, row.id) {
            Some(i) => {
                proof {
                    lemma_upsert_at(view_rows(self.prs@), row@, pr_key(), i as int);
                    lemma_map_update(self.prs@, |r: PrRow| r@, i as int, row);
                }
                self.prs[i] = row;
            },
            None => {
                proof {
                    lemma_upsert_absent(view_rows(self.prs@), row@, pr_key());
                    lemma_map_push(self.prs@, |r: PrRow| r@, row);
                }
                self.prs.push(row);
            },
        }
    }

    /// Replace the issue with this id, or add it; an issue already in the
    /// terminal `Deleted` state is never overwritten.
    pub fn upsert_issue(&mut self, row: IssueRow)
        ensures
            final(self)@ =~= (StoreV {
                issues: upsert_issue_spec(old(self)@.issues, row@),
                ..old(self)@
            }),
            old(self)@.wf() && issue_ts_wf(row@) ==> final(self)@.wf(),
            forall|j: int|
                0 <= j < old(self)@.issues.len() && (#[trigger] old(self)@.issues[j]).state
                    == IssueState::Deleted ==> j < final(self)@.issues.len()
                    && final(self)@.issues[j].state == IssueState::Deleted,
    {
        match issue_index(&self.issues, row.id) {
            Some(i) => {
                proof {
                    lemma_find_at(view_rows(self.issues@), issue_key(), i as int);
                }
                if matches!(self.issues[i].state, IssueState::Deleted) {
                    return ;
                }
                proof {
                    if old(self)@.wf() && issue_ts_wf(row@) {
                        lemma_upsert_unique(old(self)@.issues, row@, issue_key());
                        lemma_upsert_preserves(
                            old(self)@.issues,
                            row@,
                            issue_key(),
                            |x: IssueRowV| issue_ts_wf(x),
                        );
                    }
                    lemma_upsert_at(view_rows(self.issues@), row@, issue_key(), i as int);
                    lemma_map_update(self.issues@, |r: IssueRow| r@, i as int, row);
                }
                self.issues[i] = row;
            },
            None => {
                proof {
                    if old(self)@.wf() && issue_ts_wf(row@) {
                        lemma_upsert_unique(old(self)@.issues, row@, issue_key());
                        lemma_upsert_preserves(
                            old(self)@.issues,
                            row@,
                            issue_key(),
                            |x: IssueRowV| issue_ts_wf(x),
                        );
                    }
                    lemma_find_none(view_rows(self.issues@), issue_key()(row@), issue_key());
                    lemma_upsert_absent(view_rows(self.issues@), row@, issue_key());
                    lemma_map_push(self.issues@, |r: IssueRow| r@, row);
                }
                self.issues.push(row);
            },
        }
    }

    /// Replace the issue comment with this id, or add it.
    pub fn upsert_issue_comment(&mut self, row: CommentRow)
        ensures
            final(self)@ =~= (StoreV {
                issue_comments: upsert_seq(old(self)@.issue_comments, row@, comment_key()),
                ..old(self)@
            }),
            old(self)@.wf() && comment_ts_wf(row@) ==> final(self)@.wf(),
    {
        proof {
            if old(self)@.wf() && comment_ts_wf(row@) {
                lemma_upsert_unique(old(self)@.issue_comments, row@, comment_key());
                lemma_upsert_preserves(
                    old(self)@.issue_comments,
                    row@,
                    comment_key(),
                    |x: CommentRowV| comment_ts_wf(x),
                );
            }
        }
        match comment_index(&self.issue_comments, row.id) {
            Some(i) => {
                proof {
                    lemma_upsert_at(view_rows(self.issue_comments@), row@, comment_key(), i as int);
                    lemma_map_update(self.issue_comments@, |r: CommentRow| r@, i as int, row);
                }
                self.issue_comments[i] = row;
            },
            None => {
                proof {
                    lemma_upsert_absent(view_rows(self.issue_comments@), row@, comment_key());
                    lemma_map_push(self.issue_comments@, |r: CommentRow| r@, row);
                }
                self.issue_comments.push(row);
            },
        }
    }

    /// Replace the review comment with this id, or add it.
    pub fn upsert_pr_review_comment(&mut self, row: CommentRow)
        ensures
            final(self)@ =~= (StoreV {
                pr_review_comments: upsert_seq(old(self)@.pr_review_comments, row@, comment_key()),
                ..old(self)@
            }),
            old(self)@.wf() && comment_ts_wf(row@) ==> final(self)@.wf(),
    {
        proof {
            if old(self)@.wf() && comment_ts_wf(row@) {
                lemma_upsert_unique(old(self)@.pr_review_comments, row@, comment_key());
                lemma_upsert_preserves(
                    old(self)@.pr_review_comments,
                    row@,
                    comment_key(),
                    |x: CommentRowV| comment_ts_wf(x),
                );
            }
        }
        match comment_index(&self.pr_review_comments, row.id) {
            Some(i) => {
                proof {
                    lemma_upsert_at(
                        view_rows(self.pr_review_comments@),
                        row@,
                        comment_key(),
                        i as int,
                    );
                    lemma_map_update(self.pr_review_comments@, |r: CommentRow| r@, i as int, row);
                }
                self.pr_review_comments[i] = row;
            },
            None => {
                proof {
                    lemma_upsert_absent(view_rows(self.pr_review_comments@), row@, comment_key());
                    lemma_map_push(self.pr_review_comments@, |r: CommentRow| r@, row);
                }
                self.pr_review_comments.push(row);
            },
        }
    }

    /// Replace the review with this id, or add it.
    pub fn upsert_review(&mut self, row: ReviewRow)
        ensures
            final(self)@ =~= (StoreV {
                pr_reviews: upsert_seq(old(self)@.pr_reviews, row@, review_key()),
                ..old(self)@
            }),
            old(self)@.wf() && review_ts_wf(row@) ==> final(self)@.wf(),
    {
        proof {
            if old(self)@.wf() && review_ts_wf(row@) {
                lemma_upsert_unique(old(self)@.pr_reviews, row@, review_key());
                lemma_upsert_preserves(
                    old(self)@.pr_reviews,
                    row@,
                    review_key(),
                    |x: ReviewRowV| review_ts_wf(x),
                );
            }
        }
        match review_index(&self.pr_reviews, row.id) {
            Some(i) => {
                proof {
                    lemma_upsert_at(view_rows(self.pr_reviews@), row@, review_key(), i as int);
                    lemma_map_update(self.pr_reviews@, |r: ReviewRow| r@, i as int, row);
                }
                self.pr_reviews[i] = row;
            },
            None => {
                proof {
                    lemma_upsert_absent(view_rows(self.pr_reviews@), row@, review_key());
                    lemma_map_push(self.pr_reviews@, |r: ReviewRow| r@, row);
                }
                self.pr_reviews.push(row);
            },
        }
    }

    /// Replace the stargazer row for this `(repo, user)`, or add it.
    pub fn upsert_star(&mut self, row: StarRow)
        ensures
            final(self)@ =~= (StoreV {
                stargazers: upsert_seq(old(self)@.stargazers, row@, star_key()),
                ..old(self)@
            }),
            old(self)@.wf() && star_ts_wf(row@) ==> final(self)@.wf(),
    {
        proof {
            if old(self)@.wf() && star_ts_wf(row@) {
                lemma_upsert_unique(old(self)@.stargazers, row@, star_key());
                lemma_upsert_preserves(
                    old(self)@.stargazers,
                    row@,
                    star_key(),
                    |x: StarRowV| star_ts_wf(x),
                );
            }
        }
        match star_index(&self.stargazers, row.repo.as_str(), row.user.as_str()) {
            Some(i) => {
                proof {
                    lemma_upsert_at(view_rows(self.stargazers@), row@, star_key(), i as int);
                    lemma_map_update(self.stargazers@, |r: StarRow| r@, i as int, row);
                }
                self.stargazers[i] = row;
            },
            None => {
                proof {
                    lemma_upsert_absent(view_rows(self.stargazers@), row@, star_key());
                    lemma_map_push(self.stargazers@, |r: StarRow| r@, row);
                }
                self.stargazers.push(row);
            },
        }
    }

    /// Whether a commit with this sha is already present.
    pub fn commit_present(&self, sha: &str) -> (r: bool)
        ensures
            r == spec_commit_present(self@, sha@),
    {
        match commit_index(&self.commits, sha) {
            Some(i) => {
                proof {
                    assert(self@.commits[i as int].sha == sha@);
                }
                true
            },
            None => false,
        }
    }

    /// Replace the commit with this sha, or add it.
    pub fn upsert_commit(&mut self, row: CommitRow)
        ensures
            final(self)@ =~= (StoreV {
                commits: upsert_seq(old(self)@.commits, row@, commit_key()),
                ..old(self)@
            }),
            old(self)@.wf() && commit_ts_wf(row@) ==> final(self)@.wf(),
    {
        proof {
            if old(self)@.wf() && commit_ts_wf(row@) {
                lemma_upsert_unique(old(self)@.commits, row@, commit_key());
                lemma_upsert_preserves(
                    old(self)@.commits,
                    row@,
                    commit_key(),
                    |x: CommitRowV| commit_ts_wf(x),
                );
            }
        }
        match commit_index(&self.commits, row.sha.as_str()) {
            Some(i) => {
                proof {
                    lemma_upsert_at(view_rows(self.commits@), row@, commit_key(), i as int);
                    lemma_map_update(self.commits@, |r: CommitRow| r@, i as int, row);
                }
                self.commits[i] = row;
            },
            None => {
                proof {
                    lemma_upsert_absent(view_rows(self.commits@), row@, commit_key());
                    lemma_map_push(self.commits@, |r: CommitRow| r@, row);
                }
                self.commits.push(row);
            },
        }
    }

    /// Replace the workflow run with this id, or add it.
    pub fn upsert_workflow(&mut self, row: WorkflowRow)
        ensures
            final(self)@ =~= (StoreV {
                workflow_runs: upsert_seq(old(self)@.workflow_runs, row@, workflow_key()),
                ..old(self)@
            }),
            old(self)@.wf() && workflow_ts_wf(row@) ==> final(self)@.wf(),
    {
        proof {
            if old(self)@.wf() && workflow_ts_wf(row@) {
                lemma_upsert_unique(old(self)@.workflow_runs, row@, workflow_key());
                lemma_upsert_preserves(
                    old(self)@.workflow_runs,
                    row@,
                    workflow_key(),
                    |x: WorkflowRowV| workflow_ts_wf(x),
                );
            }
        }
        match workflow_index(&self.workflow_runs, row.id) {
            Some(i) => {
                proof {
                    lemma_upsert_at(view_rows(self.workflow_runs@), row@, workflow_key(), i as int);
                    lemma_map_update(self.workflow_runs@, |r: WorkflowRow| r@, i as int, row);
                }
                self.workflow_runs[i] = row;
            },
            None => {
                proof {
                    lemma_upsert_absent(view_rows(self.workflow_runs@), row@, workflow_key());
                    lemma_map_push(self.workflow_runs@, |r: WorkflowRow| r@, row);
                }
                self.workflow_runs.push(row);
            },
        }
    }

    /// The watermark of the last fully successful sync of `(org, repo)`,
    /// or the epoch when none is recorded.
    pub fn get_checkpoint(&self, org: &str, repo: &str) -> (r: i64)
        ensures
            r == spec_checkpoint(self@, org@, repo@),
    {
        match checkpoint_index(&self.checkpoints, org, repo) {
            Some(i) => {
                proof {
                    lemma_find_at(view_rows(self.checkpoints@), checkpoint_key(), i as int);
                }
                self.checkpoints[i].synced_at
            },
            None => {
                proof {
                    lemma_find_none(view_rows(self.checkpoints@), (org@, repo@), checkpoint_key());
                }
                0
            },
        }
    }

    /// Record the watermark for `(org, repo)`, overwriting any earlier one.
    pub fn set_checkpoint(&mut self, org: &str, repo: &str, t: i64)
        ensures
            final(self)@ =~= (StoreV {
                checkpoints: upsert_seq(
                    old(self)@.checkpoints,
                    CheckpointRowV { org: org@, repo: repo@, synced_at: t },
                    checkpoint_key(),
                ),
                ..old(self)@
            }),
            old(self)@.wf() ==> final(self)@.wf(),
            spec_checkpoint(final(self)@, org@, repo@) == t,
    {
        let row = CheckpointRow { org: org.to_owned(), repo: repo.to_owned(), synced_at: t };
        proof {
            if old(self)@.wf() {
                lemma_upsert_unique(old(self)@.checkpoints, row@, checkpoint_key());
            }
            lemma_upsert_find(old(self)@.checkpoints, row@, (org@, repo@), checkpoint_key());
        }
        match checkpoint_index(&self.checkpoints, org, repo) {
            Some(i) => {
                proof {
                    lemma_upsert_at(view_rows(self.checkpoints@), row@, checkpoint_key(), i as int);
                    lemma_map_update(self.checkpoints@, |r: CheckpointRow| r@, i as int, row);
                }
                self.checkpoints[i] = row;
            },
            None => {
                proof {
                    lemma_upsert_absent(view_rows(self.checkpoints@), row@, checkpoint_key());
                    lemma_map_push(self.checkpoints@, |r: CheckpointRow| r@, row);
                }
                self.checkpoints.push(row);
            },
        }
    }
}

} // verus!
