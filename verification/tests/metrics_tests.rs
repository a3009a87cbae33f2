//! The aggregation engine: the dirty window, the per-day aggregates, and
//! their idempotence.

use strands_metrics::metrics::{compute_metrics, MetricRow};
use strands_metrics::rows::{
    CommentRow, CommitRow, IssueRow, IssueState, ItemState, PrRow, ReviewRow, StarRow, WorkflowRow,
};
use strands_metrics::store::Store;

const DAY: i64 = 19_676; // 2023-11-15
const T0: i64 = DAY * 86_400;

fn pr(id: i64, repo: &str) -> PrRow {
    PrRow {
        id,
        repo: repo.to_string(),
        number: id,
        state: ItemState::Open,
        author: "alice".to_string(),
        title: "change".to_string(),
        created_at: Some(T0),
        updated_at: Some(T0),
        merged_at: None,
        closed_at: None,
        author_association: Some("MEMBER".to_string()),
        payload: "{}".to_string(),
    }
}

fn issue(id: i64, repo: &str, created_at: i64) -> IssueRow {
    IssueRow {
        id,
        repo: repo.to_string(),
        number: id,
        state: IssueState::Open,
        author: "alice".to_string(),
        title: "bug".to_string(),
        created_at: Some(created_at),
        updated_at: Some(created_at),
        closed_at: None,
        deleted_at: None,
        payload: "{}".to_string(),
    }
}

fn comment(id: i64, repo: &str, parent: i64, author: &str, at: i64) -> CommentRow {
    CommentRow {
        id,
        repo: repo.to_string(),
        parent_number: parent,
        author: author.to_string(),
        created_at: Some(at),
        updated_at: Some(at),
        payload: "{}".to_string(),
    }
}

fn row_for<'a>(metrics: &'a [MetricRow], date: i64, repo: &str) -> &'a MetricRow {
    metrics.iter().find(|m| m.date == date && m.repo == repo).unwrap()
}

#[test]
fn response_time_excludes_same_author() {
    // An issue created at T, a same-author comment one hour later, a
    // different-author comment five hours later: the day's time to first
    // response is exactly five hours.
    let mut store = Store::new();
    store.upsert_issue(issue(1, "repo1", T0));
    store.upsert_issue_comment(comment(100, "repo1", 1, "alice", T0 + 3_600));
    store.upsert_issue_comment(comment(101, "repo1", 1, "bob", T0 + 18_000));
    compute_metrics(&mut store, DAY);
    let row = row_for(&store.daily_metrics, DAY, "repo1");
    assert_eq!(row.time_to_first_response, Some(18_000));
    assert_eq!(row.issues_opened, 1);
}

#[test]
fn response_time_none_without_response() {
    let mut store = Store::new();
    store.upsert_issue(issue(1, "repo1", T0));
    store.upsert_issue_comment(comment(100, "repo1", 1, "alice", T0 + 3_600));
    compute_metrics(&mut store, DAY);
    let row = row_for(&store.daily_metrics, DAY, "repo1");
    assert_eq!(row.time_to_first_response, None);
}

#[test]
fn merge_time_split_by_association() {
    // A collaborator's merge lands in the internal bucket, an outside
    // author's in the external one; neither pull request is counted twice.
    let mut store = Store::new();
    let mut internal = pr(1, "repo1");
    internal.author_association = Some("COLLABORATOR".to_string());
    internal.created_at = Some(T0);
    internal.merged_at = Some(T0 + 7_200);
    let mut external = pr(2, "repo1");
    external.author_association = Some("NONE".to_string());
    external.created_at = Some(T0);
    external.merged_at = Some(T0 + 10_800);
    store.upsert_pr(internal);
    store.upsert_pr(external);
    compute_metrics(&mut store, DAY);
    let row = row_for(&store.daily_metrics, DAY, "repo1");
    assert_eq!(row.prs_merged, 2);
    assert_eq!(row.time_to_merge_internal, Some(7_200));
    assert_eq!(row.time_to_merge_external, Some(10_800));
}

#[test]
fn aggregation_is_idempotent() {
    // Recomputing on unchanged raw data yields identical rows for every
    // date in the window.
    let mut store = Store::new();
    store.upsert_issue(issue(1, "repo1", T0));
    store.upsert_issue_comment(comment(100, "repo1", 1, "bob", T0 + 18_000));
    store.upsert_pr(pr(2, "repo1"));
    store.upsert_commit(CommitRow {
        sha: "abc".to_string(),
        repo: "repo1".to_string(),
        author: "alice".to_string(),
        date: Some(T0),
        additions: 10,
        deletions: 3,
        message: "fix".to_string(),
    });
    compute_metrics(&mut store, DAY);
    let first = store.daily_metrics.clone();
    compute_metrics(&mut store, DAY);
    assert_eq!(store.daily_metrics, first);
}

#[test]
fn window_leaves_old_days_untouched() {
    // With metrics through day D, a recompute touches [D-3, today] only:
    // a row ten days back survives unchanged, a row inside the window is
    // regenerated.
    let mut store = Store::new();
    let mut old_row = MetricRow {
        date: DAY - 10,
        repo: "repo1".to_string(),
        prs_opened: 7,
        prs_merged: 0,
        issues_opened: 0,
        issues_closed: 0,
        churn_additions: 0,
        churn_deletions: 0,
        ci_failures: 0,
        ci_runs: 0,
        stars: 0,
        open_items_count: 0,
        open_issues_count: 0,
        open_prs_count: 0,
        time_to_first_response: None,
        avg_issue_resolution_time: None,
        avg_pr_resolution_time: None,
        time_to_merge_internal: None,
        time_to_merge_external: None,
    };
    store.daily_metrics.push(old_row.clone());
    let mut stale_row = old_row.clone();
    stale_row.date = DAY;
    stale_row.prs_opened = 99;
    store.daily_metrics.push(stale_row);
    store.upsert_pr(pr(1, "repo1"));
    compute_metrics(&mut store, DAY);
    // The old row survives byte for byte.
    let kept = row_for(&store.daily_metrics, DAY - 10, "repo1");
    assert_eq!(*kept, old_row);
    // The in-window row was regenerated from the raw tables.
    let fresh = row_for(&store.daily_metrics, DAY, "repo1");
    assert_eq!(fresh.prs_opened, 1);
    // The window starts three days back and nothing before it was added.
    assert!(store.daily_metrics.iter().all(|m| m.date == DAY - 10 || m.date >= DAY - 3));
}

#[test]
fn daily_counts_and_sums() {
    let mut store = Store::new();
    // One PR opened and merged on the day, one issue opened two days
    // before and closed on the day.
    let mut merged = pr(1, "repo1");
    merged.created_at = Some(T0 - 2 * 86_400);
    merged.merged_at = Some(T0 + 43_200);
    store.upsert_pr(merged);
    store.upsert_pr(pr(2, "repo1"));
    let mut closed = issue(3, "repo1", T0 - 2 * 86_400);
    closed.state = IssueState::Closed;
    closed.closed_at = Some(T0 + 21_600);
    store.upsert_issue(closed);
    store.upsert_commit(CommitRow {
        sha: "abc".to_string(),
        repo: "repo1".to_string(),
        author: "alice".to_string(),
        date: Some(T0 + 60),
        additions: 10,
        deletions: 3,
        message: "fix".to_string(),
    });
    store.upsert_commit(CommitRow {
        sha: "def".to_string(),
        repo: "repo1".to_string(),
        author: "alice".to_string(),
        date: Some(T0 + 120),
        additions: 5,
        deletions: 1,
        message: "more".to_string(),
    });
    store.upsert_workflow(WorkflowRow {
        id: 1,
        repo: "repo1".to_string(),
        name: "ci".to_string(),
        head_branch: "main".to_string(),
        conclusion: "failure".to_string(),
        created_at: Some(T0 + 60),
        updated_at: Some(T0 + 120),
        duration_ms: 60_000,
    });
    store.upsert_workflow(WorkflowRow {
        id: 2,
        repo: "repo1".to_string(),
        name: "ci".to_string(),
        head_branch: "main".to_string(),
        conclusion: "success".to_string(),
        created_at: Some(T0 + 60),
        updated_at: Some(T0 + 120),
        duration_ms: 60_000,
    });
    store.upsert_star(StarRow {
        repo: "repo1".to_string(),
        user: "alice".to_string(),
        starred_at: Some(T0 - 86_400),
    });
    store.upsert_star(StarRow {
        repo: "repo1".to_string(),
        user: "bob".to_string(),
        starred_at: Some(T0 + 60),
    });
    compute_metrics(&mut store, DAY);
    let row = row_for(&store.daily_metrics, DAY, "repo1");
    assert_eq!(row.prs_opened, 1);
    assert_eq!(row.prs_merged, 1);
    assert_eq!(row.issues_opened, 0);
    assert_eq!(row.issues_closed, 1);
    assert_eq!(row.churn_additions, 15);
    assert_eq!(row.churn_deletions, 4);
    assert_eq!(row.ci_runs, 2);
    assert_eq!(row.ci_failures, 1);
    assert_eq!(row.stars, 2);
    // Open as of the day: the un-merged PR stays open; the merged one has
    // no closing instant either, so both count; the issue closed today no
    // longer counts as open after its closing day only.
    assert_eq!(row.open_prs_count, 2);
    assert_eq!(row.open_issues_count, 0);
    assert_eq!(row.open_items_count, 2);
    // Resolution averages in seconds.
    assert_eq!(row.avg_issue_resolution_time, Some(2 * 86_400 + 21_600));
    assert_eq!(row.avg_pr_resolution_time, Some(2 * 86_400 + 43_200));
    // The day before: the issue was still open.
    let prev = row_for(&store.daily_metrics, DAY - 1, "repo1");
    assert_eq!(prev.open_issues_count, 1);
    assert_eq!(prev.stars, 1);
    assert_eq!(prev.ci_runs, 0);
}

#[test]
fn reviews_answer_pull_requests() {
    // A review by another author is the first response to a pull request.
    let mut store = Store::new();
    store.upsert_pr(pr(1, "repo1"));
    store.upsert_review(ReviewRow {
        id: 900,
        repo: "repo1".to_string(),
        pr_number: 1,
        state: "APPROVED".to_string(),
        author: "bob".to_string(),
        submitted_at: Some(T0 + 21_600),
        payload: "{}".to_string(),
    });
    compute_metrics(&mut store, DAY);
    let row = row_for(&store.daily_metrics, DAY, "repo1");
    assert_eq!(row.time_to_first_response, Some(21_600));
}

#[test]
fn averages_floor_toward_negative_infinity() {
    // Odd raw data can yield a negative duration (merged before created);
    // the average is still well defined and floors downward.
    let mut store = Store::new();
    let mut early = pr(1, "repo1");
    early.author_association = Some("OWNER".to_string());
    early.created_at = Some(T0 + 7_200);
    early.merged_at = Some(T0 + 10_800); // +3600 seconds
    let mut weird = pr(2, "repo1");
    weird.author_association = Some("OWNER".to_string());
    weird.created_at = Some(T0 + 7_201);
    weird.merged_at = Some(T0); // -7201 seconds
    store.upsert_pr(early);
    store.upsert_pr(weird);
    compute_metrics(&mut store, DAY);
    let row = row_for(&store.daily_metrics, DAY, "repo1");
    // (3600 + -7201) / 2 = -3601 / 2, floored to -1801.
    assert_eq!(row.time_to_merge_internal, Some(-1_801));
}

#[test]
fn averages_truncate_downward_when_positive() {
    let mut store = Store::new();
    let mut a = pr(1, "repo1");
    a.merged_at = Some(T0 + 3_600);
    let mut b = pr(2, "repo1");
    b.merged_at = Some(T0 + 3_601);
    store.upsert_pr(a);
    store.upsert_pr(b);
    compute_metrics(&mut store, DAY);
    let row = row_for(&store.daily_metrics, DAY, "repo1");
    // (3600 + 3601) / 2 = 7201 / 2, floored to 3600.
    assert_eq!(row.time_to_merge_internal, Some(3_600));
}

#[test]
fn repositories_are_aggregated_independently() {
    let mut store = Store::new();
    store.upsert_pr(pr(1, "repo1"));
    store.upsert_issue(issue(2, "repo2", T0));
    compute_metrics(&mut store, DAY);
    let one = row_for(&store.daily_metrics, DAY, "repo1");
    let two = row_for(&store.daily_metrics, DAY, "repo2");
    assert_eq!(one.prs_opened, 1);
    assert_eq!(one.issues_opened, 0);
    assert_eq!(two.prs_opened, 0);
    assert_eq!(two.issues_opened, 1);
}
