//! The rows of the mirrored store and the raw records they are built from.
//!
//! A raw record is the shape a remote payload arrives in: every leaf field
//! optional, timestamps still ISO-8601 strings. A row is the stored shape:
//! leaf fields defaulted, timestamps parsed to seconds since the epoch
//! (`None` when absent or unparseable). Each row type has a mathematical
//! view in which strings are character sequences and integers are unbounded.

use vstd::prelude::*;

verus! {

/// State of a pull request as the remote lists it.
#[derive(Debug, Clone, Copy, PartialEq, Eq, Structural)]
pub enum ItemState {
    Open,
    Closed,
    Unknown,
}

/// State of an issue; `Deleted` is set only by the reconciler and is
/// terminal.
#[derive(Debug, Clone, Copy, PartialEq, Eq, Structural)]
pub enum IssueState {
    Open,
    Closed,
    Deleted,
    Unknown,
}

// ---------------------------------------------------------------------------
// Pull requests
// ---------------------------------------------------------------------------

/// A raw pull-request record, as handed over from the remote listing.
#[derive(Debug, Clone)]
pub struct RawPr {
    pub id: i64,
    pub number: i64,
    pub state: ItemState,
    pub author: Option<String>,
    pub title: Option<String>,
    pub created_at: Option<String>,
    pub updated_at: Option<String>,
    pub merged_at: Option<String>,
    pub closed_at: Option<String>,
    pub author_association: Option<String>,
    pub payload: String,
}

/// A stored pull-request row, keyed by `id`.
#[derive(Debug, Clone, PartialEq)]
pub struct PrRow {
    pub id: i64,
    pub repo: String,
    pub number: i64,
    pub state: ItemState,
    pub author: String,
    pub title: String,
    pub created_at: Option<i64>,
    pub updated_at: Option<i64>,
    pub merged_at: Option<i64>,
    pub closed_at: Option<i64>,
    pub author_association: Option<String>,
    pub payload: String,
}

#[verifier::ext_equal]
pub struct PrRowV {
    pub id: int,
    pub repo: Seq<char>,
    pub number: int,
    pub state: ItemState,
    pub author: Seq<char>,
    pub title: Seq<char>,
    pub created_at: Option<i64>,
    pub updated_at: Option<i64>,
    pub merged_at: Option<i64>,
    pub closed_at: Option<i64>,
    pub author_association: Option<Seq<char>>,
    pub payload: Seq<char>,
}

impl View for PrRow {
    type V = PrRowV;

    open spec fn view(&self) -> PrRowV {
        PrRowV {
            id: self.id as int,
            repo: self.repo@,
            number: self.number as int,
            state: self.state,
            author: self.author@,
            title: self.title@,
            created_at: self.created_at,
            updated_at: self.updated_at,
            merged_at: self.merged_at,
            closed_at: self.closed_at,
            author_association: match &self.author_association {
                Some(a) => Some(a@),
                None => None,
            },
            payload: self.payload@,
        }
    }
}

// ---------------------------------------------------------------------------
// Issues
// ---------------------------------------------------------------------------

/// A raw issue record. Issue listings conflate issues and pull requests;
/// a record carrying the pull-request marker is excluded from the issue
/// table.
#[derive(Debug, Clone)]
pub struct RawIssue {
    pub id: Option<i64>,
    pub number: Option<i64>,
    pub state: Option<String>,
    pub author: Option<String>,
    pub title: Option<String>,
    pub created_at: Option<String>,
    pub updated_at: Option<String>,
    pub closed_at: Option<String>,
    pub is_pull_request: bool,
    pub payload: String,
}

/// A stored issue row, keyed by `id`.
#[derive(Debug, Clone, PartialEq)]
pub struct IssueRow {
    pub id: i64,
    pub repo: String,
    pub number: i64,
    pub state: IssueState,
    pub author: String,
    pub title: String,
    pub created_at: Option<i64>,
    pub updated_at: Option<i64>,
    pub closed_at: Option<i64>,
    pub deleted_at: Option<i64>,
    pub payload: String,
}

#[verifier::ext_equal]
pub struct IssueRowV {
    pub id: int,
    pub repo: Seq<char>,
    pub number: int,
    pub state: IssueState,
    pub author: Seq<char>,
    pub title: Seq<char>,
    pub created_at: Option<i64>,
    pub updated_at: Option<i64>,
    pub closed_at: Option<i64>,
    pub deleted_at: Option<i64>,
    pub payload: Seq<char>,
}

impl View for IssueRow {
    type V = IssueRowV;

    open spec fn view(&self) -> IssueRowV {
        IssueRowV {
            id: self.id as int,
            repo: self.repo@,
            number: self.number as int,
            state: self.state,
            author: self.author@,
            title: self.title@,
            created_at: self.created_at,
            updated_at: self.updated_at,
            closed_at: self.closed_at,
            deleted_at: self.deleted_at,
            payload: self.payload@,
        }
    }
}

// ---------------------------------------------------------------------------
// Comments (issue comments and review comments share a shape)
// ---------------------------------------------------------------------------

/// A raw comment record; `parent_url` ends in the number of the issue or
/// pull request the comment belongs to.
#[derive(Debug, Clone)]
pub struct RawComment {
    pub id: Option<i64>,
    pub parent_url: Option<String>,
    pub author: Option<String>,
    pub created_at: Option<String>,
    pub updated_at: Option<String>,
    pub payload: String,
}

/// A stored comment row, keyed by `id`.
#[derive(Debug, Clone, PartialEq)]
pub struct CommentRow {
    pub id: i64,
    pub repo: String,
    pub parent_number: i64,
    pub author: String,
    pub created_at: Option<i64>,
    pub updated_at: Option<i64>,
    pub payload: String,
}

#[verifier::ext_equal]
pub struct CommentRowV {
    pub id: int,
    pub repo: Seq<char>,
    pub parent_number: int,
    pub author: Seq<char>,
    pub created_at: Option<i64>,
    pub updated_at: Option<i64>,
    pub payload: Seq<char>,
}

impl View for CommentRow {
    type V = CommentRowV;

    open spec fn view(&self) -> CommentRowV {
        CommentRowV {
            id: self.id as int,
            repo: self.repo@,
            parent_number: self.parent_number as int,
            author: self.author@,
            created_at: self.created_at,
            updated_at: self.updated_at,
            payload: self.payload@,
        }
    }
}

// ---------------------------------------------------------------------------
// Reviews
// ---------------------------------------------------------------------------

/// A raw review record for one pull request.
#[derive(Debug, Clone)]
pub struct RawReview {
    pub id: i64,
    pub state: Option<String>,
    pub author: Option<String>,
    pub submitted_at: Option<String>,
    pub payload: String,
}

/// A stored review row, keyed by `id`.
#[derive(Debug, Clone, PartialEq)]
pub struct ReviewRow {
    pub id: i64,
    pub repo: String,
    pub pr_number: i64,
    pub state: String,
    pub author: String,
    pub submitted_at: Option<i64>,
    pub payload: String,
}

#[verifier::ext_equal]
pub struct ReviewRowV {
    pub id: int,
    pub repo: Seq<char>,
    pub pr_number: int,
    pub state: Seq<char>,
    pub author: Seq<char>,
    pub submitted_at: Option<i64>,
    pub payload: Seq<char>,
}

impl View for ReviewRow {
    type V = ReviewRowV;

    open spec fn view(&self) -> ReviewRowV {
        ReviewRowV {
            id: self.id as int,
            repo: self.repo@,
            pr_number: self.pr_number as int,
            state: self.state@,
            author: self.author@,
            submitted_at: self.submitted_at,
            payload: self.payload@,
        }
    }
}

// ---------------------------------------------------------------------------
// Stargazers
// ---------------------------------------------------------------------------

/// A raw stargazer entry; entries missing either field are skipped.
#[derive(Debug, Clone)]
pub struct RawStar {
    pub user: Option<String>,
    pub starred_at: Option<String>,
}

/// A stored stargazer row, keyed by `(repo, user)`.
#[derive(Debug, Clone, PartialEq)]
pub struct StarRow {
    pub repo: String,
    pub user: String,
    pub starred_at: Option<i64>,
}

#[verifier::ext_equal]
pub struct StarRowV {
    pub repo: Seq<char>,
    pub user: Seq<char>,
    pub starred_at: Option<i64>,
}

impl View for StarRow {
    type V = StarRowV;

    open spec fn view(&self) -> StarRowV {
        StarRowV { repo: self.repo@, user: self.user@, starred_at: self.starred_at }
    }
}

// ---------------------------------------------------------------------------
// Commits
// ---------------------------------------------------------------------------

/// The detail record fetched for one commit.
#[derive(Debug, Clone)]
pub struct RawCommitDetail {
    pub author: Option<String>,
    pub date: Option<String>,
    pub additions: Option<i64>,
    pub deletions: Option<i64>,
    pub message: Option<String>,
}

/// A stored commit row, keyed by `sha`. Commits are immutable: a present
/// sha is never fetched again.
#[derive(Debug, Clone, PartialEq)]
pub struct CommitRow {
    pub sha: String,
    pub repo: String,
    pub author: String,
    pub date: Option<i64>,
    pub additions: i64,
    pub deletions: i64,
    pub message: String,
}

#[verifier::ext_equal]
pub struct CommitRowV {
    pub sha: Seq<char>,
    pub repo: Seq<char>,
    pub author: Seq<char>,
    pub date: Option<i64>,
    pub additions: i64,
    pub deletions: i64,
    pub message: Seq<char>,
}

impl View for CommitRow {
    type V = CommitRowV;

    open spec fn view(&self) -> CommitRowV {
        CommitRowV {
            sha: self.sha@,
            repo: self.repo@,
            author: self.author@,
            date: self.date,
            additions: self.additions,
            deletions: self.deletions,
            message: self.message@,
        }
    }
}

// ---------------------------------------------------------------------------
// Workflow runs
// ---------------------------------------------------------------------------

/// A raw workflow-run record.
#[derive(Debug, Clone)]
pub struct RawWorkflowRun {
    pub id: Option<i64>,
    pub name: Option<String>,
    pub head_branch: Option<String>,
    pub conclusion: Option<String>,
    pub created_at: Option<String>,
    pub updated_at: Option<String>,
}

/// A stored workflow-run row, keyed by `id`.
#[derive(Debug, Clone, PartialEq)]
pub struct WorkflowRow {
    pub id: i64,
    pub repo: String,
    pub name: String,
    pub head_branch: String,
    pub conclusion: String,
    pub created_at: Option<i64>,
    pub updated_at: Option<i64>,
    pub duration_ms: i64,
}

#[verifier::ext_equal]
pub struct WorkflowRowV {
    pub id: int,
    pub repo: Seq<char>,
    pub name: Seq<char>,
    pub head_branch: Seq<char>,
    pub conclusion: Seq<char>,
    pub created_at: Option<i64>,
    pub updated_at: Option<i64>,
    pub duration_ms: i64,
}

impl View for WorkflowRow {
    type V = WorkflowRowV;

    open spec fn view(&self) -> WorkflowRowV {
        WorkflowRowV {
            id: self.id as int,
            repo: self.repo@,
            name: self.name@,
            head_branch: self.head_branch@,
            conclusion: self.conclusion@,
            created_at: self.created_at,
            updated_at: self.updated_at,
            duration_ms: self.duration_ms,
        }
    }
}

// ---------------------------------------------------------------------------
// Checkpoints
// ---------------------------------------------------------------------------

/// The watermark of the last fully successful sync of one repository,
/// keyed by `(org, repo)`.
#[derive(Debug, Clone, PartialEq)]
pub struct CheckpointRow {
    pub org: String,
    pub repo: String,
    pub synced_at: i64,
}

#[verifier::ext_equal]
pub struct CheckpointRowV {
    pub org: Seq<char>,
    pub repo: Seq<char>,
    pub synced_at: i64,
}

impl View for CheckpointRow {
    type V = CheckpointRowV;

    open spec fn view(&self) -> CheckpointRowV {
        CheckpointRowV { org: self.org@, repo: self.repo@, synced_at: self.synced_at }
    }
}

} // verus!
