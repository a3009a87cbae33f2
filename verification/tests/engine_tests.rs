//! The synchronization engine: upserts, pagination cutoff, checkpoints,
//! the rate governor, and the reconciler.

use strands_metrics::ingest::{
    apply_issue_page, apply_pr_page, apply_review_page, apply_star_page, apply_workflow_page,
    eligible_repos, is_missing_resource, missing_shas, prune_stars, quota_wait_secs, record_commit,
    repo_eligible, RepoInfo,
};
use strands_metrics::orchestrator::{finish_repo_sync, next_phase, SyncPhase};
use strands_metrics::rows::{
    IssueRow, IssueState, ItemState, RawCommitDetail, RawIssue, RawPr, RawReview, RawStar,
    RawWorkflowRun,
};
use strands_metrics::store::Store;
use strands_metrics::sweep::{
    apply_probe, missing_from_remote, open_issue_numbers, IssueProbe,
};

fn raw_pr(id: i64, number: i64, updated_at: &str) -> RawPr {
    RawPr {
        id,
        number,
        state: ItemState::Open,
        author: Some("alice".to_string()),
        title: Some("change".to_string()),
        created_at: Some("2023-11-14T00:00:00Z".to_string()),
        updated_at: Some(updated_at.to_string()),
        merged_at: None,
        closed_at: None,
        author_association: Some("MEMBER".to_string()),
        payload: "{}".to_string(),
    }
}

fn raw_issue(id: i64, number: i64, updated_at: &str) -> RawIssue {
    RawIssue {
        id: Some(id),
        number: Some(number),
        state: Some("open".to_string()),
        author: Some("alice".to_string()),
        title: Some("bug".to_string()),
        created_at: Some("2023-11-14T00:00:00Z".to_string()),
        updated_at: Some(updated_at.to_string()),
        closed_at: None,
        is_pull_request: false,
        payload: "{}".to_string(),
    }
}

#[test]
fn pr_page_is_upserted_and_parsed() {
    let mut store = Store::new();
    let page = vec![raw_pr(1, 10, "2023-11-15T12:00:00Z")];
    let (keep, reviews) = apply_pr_page(&mut store, "repo1", &page, 0);
    assert!(keep);
    assert_eq!(reviews, vec![10]);
    assert_eq!(store.prs.len(), 1);
    let row = &store.prs[0];
    assert_eq!(row.id, 1);
    assert_eq!(row.repo, "repo1");
    assert_eq!(row.created_at, Some(1_699_920_000));
    assert_eq!(row.updated_at, Some(1_700_049_600));
    assert_eq!(row.author, "alice");
    assert_eq!(row.state, ItemState::Open);
}

#[test]
fn pr_page_stops_at_watermark() {
    let mut store = Store::new();
    // Descending by update time; the second record is older than the
    // watermark, so it and everything after it is skipped.
    let page = vec![
        raw_pr(1, 10, "2023-11-15T12:00:00Z"),
        raw_pr(2, 11, "2023-11-12T00:00:00Z"),
        raw_pr(3, 12, "2023-11-15T01:00:00Z"),
    ];
    let since = 1_699_920_000; // 2023-11-14T00:00:00Z
    let (keep, reviews) = apply_pr_page(&mut store, "repo1", &page, since);
    assert!(!keep);
    assert_eq!(reviews, vec![10]);
    assert_eq!(store.prs.len(), 1);
    assert_eq!(store.prs[0].id, 1);
}

#[test]
fn sync_replay_is_idempotent() {
    // Re-running the same window produces an identical raw-table state.
    let mut store = Store::new();
    let page = vec![
        raw_pr(1, 10, "2023-11-15T12:00:00Z"),
        raw_pr(2, 11, "2023-11-15T01:00:00Z"),
    ];
    apply_pr_page(&mut store, "repo1", &page, 0);
    let first = store.prs.clone();
    apply_pr_page(&mut store, "repo1", &page, 0);
    assert_eq!(store.prs, first);
}

#[test]
fn upsert_replaces_by_key_full_row() {
    let mut store = Store::new();
    let page1 = vec![raw_pr(1, 10, "2023-11-15T01:00:00Z"), raw_pr(2, 11, "2023-11-15T01:00:00Z")];
    apply_pr_page(&mut store, "repo1", &page1, 0);
    // The same id arrives again with a fresh update instant and title.
    let mut newer = raw_pr(1, 10, "2023-11-15T12:00:00Z");
    newer.title = Some("amended".to_string());
    apply_pr_page(&mut store, "repo1", &vec![newer], 0);
    assert_eq!(store.prs.len(), 2);
    let row = store.prs.iter().find(|p| p.id == 1).unwrap();
    assert_eq!(row.title, "amended");
    assert_eq!(row.updated_at, Some(1_700_049_600));
    // The other row is untouched.
    let other = store.prs.iter().find(|p| p.id == 2).unwrap();
    assert_eq!(other.updated_at, Some(1_700_010_000));
}

#[test]
fn issue_page_skips_pull_requests() {
    let mut store = Store::new();
    let mut pr_marked = raw_issue(5, 50, "2023-11-15T12:00:00Z");
    pr_marked.is_pull_request = true;
    let page = vec![raw_issue(4, 40, "2023-11-15T12:00:00Z"), pr_marked];
    let keep = apply_issue_page(&mut store, "repo1", &page, 0, 1_700_049_600);
    assert!(keep);
    assert_eq!(store.issues.len(), 1);
    assert_eq!(store.issues[0].id, 4);
    assert_eq!(store.issues[0].state, IssueState::Open);
}

#[test]
fn issue_ingest_defaults_missing_fields() {
    let mut store = Store::new();
    let raw = RawIssue {
        id: None,
        number: None,
        state: None,
        author: None,
        title: None,
        created_at: Some("not a timestamp".to_string()),
        updated_at: Some("2023-11-15T12:00:00Z".to_string()),
        closed_at: None,
        is_pull_request: false,
        payload: "{}".to_string(),
    };
    apply_issue_page(&mut store, "repo1", &vec![raw], 0, 1_700_049_600);
    let row = &store.issues[0];
    assert_eq!(row.id, 0);
    assert_eq!(row.number, 0);
    assert_eq!(row.state, IssueState::Unknown);
    assert_eq!(row.author, "unknown");
    assert_eq!(row.title, "");
    assert_eq!(row.created_at, None);
}

#[test]
fn commit_presence_check_avoids_refetch() {
    // The cost-avoidance invariant: a present sha never appears in the
    // fetch list, even when it reappears on a later page.
    let mut store = Store::new();
    let detail = RawCommitDetail {
        author: Some("alice".to_string()),
        date: Some("2023-11-15T00:00:00Z".to_string()),
        additions: Some(10),
        deletions: Some(3),
        message: Some("fix".to_string()),
    };
    record_commit(&mut store, "abc123".to_string(), "repo1", detail);
    let page_shas = vec!["abc123".to_string(), "def456".to_string(), "def456".to_string()];
    let to_fetch = missing_shas(&store, &page_shas);
    assert_eq!(to_fetch, vec!["def456".to_string()]);
    // A second page naming the stored sha again still fetches nothing.
    let again = missing_shas(&store, &vec!["abc123".to_string()]);
    assert!(again.is_empty());
}

#[test]
fn commit_detail_defaults() {
    let mut store = Store::new();
    let detail = RawCommitDetail {
        author: None,
        date: None,
        additions: None,
        deletions: None,
        message: None,
    };
    record_commit(&mut store, "abc".to_string(), "repo1", detail);
    let row = &store.commits[0];
    assert_eq!(row.author, "unknown");
    assert_eq!(row.date, None);
    assert_eq!(row.additions, 0);
    assert_eq!(row.deletions, 0);
    assert_eq!(row.message, "");
}

#[test]
fn workflow_duration_is_span_between_instants() {
    let mut store = Store::new();
    let raw = RawWorkflowRun {
        id: Some(7),
        name: Some("ci".to_string()),
        head_branch: Some("main".to_string()),
        conclusion: Some("failure".to_string()),
        created_at: Some("2023-11-15T00:00:00Z".to_string()),
        updated_at: Some("2023-11-15T01:00:00Z".to_string()),
    };
    apply_workflow_page(&mut store, "repo1", &vec![raw], 1_700_049_600);
    let row = &store.workflow_runs[0];
    assert_eq!(row.duration_ms, 3_600_000);
    assert_eq!(row.conclusion, "failure");
}

#[test]
fn star_sweep_deletes_unstarred_users() {
    let mut store = Store::new();
    let page = vec![
        RawStar {
            user: Some("alice".to_string()),
            starred_at: Some("2023-11-14T00:00:00Z".to_string()),
        },
        RawStar {
            user: Some("bob".to_string()),
            starred_at: Some("2023-11-15T00:00:00Z".to_string()),
        },
        RawStar { user: None, starred_at: Some("2023-11-15T00:00:00Z".to_string()) },
    ];
    let users = apply_star_page(&mut store, "repo1", &page);
    assert_eq!(users, vec!["alice".to_string(), "bob".to_string()]);
    assert_eq!(store.stargazers.len(), 2);
    // The remote set no longer names bob: the row goes away outright.
    prune_stars(&mut store, "repo1", &vec!["alice".to_string()]);
    assert_eq!(store.stargazers.len(), 1);
    assert_eq!(store.stargazers[0].user, "alice");
}

#[test]
fn review_page_is_stored_with_defaults() {
    let mut store = Store::new();
    let page = vec![RawReview {
        id: 70,
        state: None,
        author: None,
        submitted_at: Some("2023-11-15T05:00:00Z".to_string()),
        payload: "{}".to_string(),
    }];
    apply_review_page(&mut store, "repo1", 10, &page);
    let row = &store.pr_reviews[0];
    assert_eq!(row.state, "UNKNOWN");
    assert_eq!(row.author, "");
    assert_eq!(row.pr_number, 10);
    assert_eq!(row.submitted_at, Some(1_700_024_400));
}

#[test]
fn comment_page_stops_at_watermark_and_parses_parent() {
    let mut store = Store::new();
    let fresh = strands_metrics::rows::RawComment {
        id: Some(31),
        parent_url: Some("https://host/repos/o/repo1/issues/42".to_string()),
        author: Some("bob".to_string()),
        created_at: Some("2023-11-15T01:00:00Z".to_string()),
        updated_at: Some("2023-11-15T12:00:00Z".to_string()),
        payload: "{}".to_string(),
    };
    let mut stale = fresh.clone();
    stale.id = Some(32);
    stale.updated_at = Some("2023-11-12T00:00:00Z".to_string());
    let since = 1_699_920_000; // 2023-11-14T00:00:00Z
    let keep = strands_metrics::ingest::apply_issue_comment_page(
        &mut store,
        "repo1",
        &vec![fresh, stale],
        since,
        1_700_049_600,
    );
    assert!(!keep);
    assert_eq!(store.issue_comments.len(), 1);
    let row = &store.issue_comments[0];
    assert_eq!(row.id, 31);
    assert_eq!(row.parent_number, 42);
    assert_eq!(row.created_at, Some(1_700_010_000));
}

#[test]
fn checkpoint_defaults_to_epoch_and_overwrites() {
    let mut store = Store::new();
    assert_eq!(store.get_checkpoint("org", "repo1"), 0);
    store.set_checkpoint("org", "repo1", 1_700_006_400);
    assert_eq!(store.get_checkpoint("org", "repo1"), 1_700_006_400);
    store.set_checkpoint("org", "repo1", 1_700_092_800);
    assert_eq!(store.get_checkpoint("org", "repo1"), 1_700_092_800);
    assert_eq!(store.get_checkpoint("org", "repo2"), 0);
    assert_eq!(store.checkpoints.len(), 1);
}

#[test]
fn checkpoint_advances_only_after_full_success() {
    // The state machine reaches Committed only through eight successes;
    // one failure anywhere aborts and leaves the checkpoint untouched.
    let mut phase = SyncPhase::Idle;
    for _ in 0..8 {
        phase = next_phase(phase, true);
    }
    assert_eq!(phase, SyncPhase::Committed);

    let mut failing = SyncPhase::Idle;
    for k in 0..8 {
        failing = next_phase(failing, k != 3);
    }
    assert_eq!(failing, SyncPhase::Aborted);

    let mut store = Store::new();
    let committed = finish_repo_sync(&mut store, "org", "repo1", failing, 1_700_006_400);
    assert!(!committed);
    assert_eq!(store.get_checkpoint("org", "repo1"), 0);
    let committed = finish_repo_sync(&mut store, "org", "repo1", phase, 1_700_006_400);
    assert!(committed);
    assert_eq!(store.get_checkpoint("org", "repo1"), 1_700_006_400);
}

#[test]
fn quota_wait_formula() {
    // Ample quota: no wait.
    assert_eq!(quota_wait_secs(100, 2_000, 1_000), 0);
    // Low quota: time to reset plus the ten-second margin.
    assert_eq!(quota_wait_secs(49, 2_000, 1_000), 1_010);
    // Reset already passed: only the margin.
    assert_eq!(quota_wait_secs(0, 500, 1_000), 10);
}

#[test]
fn repo_eligibility() {
    let ok = RepoInfo { name: "tools".to_string(), archived: Some(false), is_private: None };
    let archived = RepoInfo { name: "old".to_string(), archived: Some(true), is_private: None };
    let private_repo =
        RepoInfo { name: "secret".to_string(), archived: None, is_private: Some(true) };
    let prefixed =
        RepoInfo { name: "private_notes".to_string(), archived: None, is_private: None };
    assert!(repo_eligible(&ok));
    assert!(!repo_eligible(&archived));
    assert!(!repo_eligible(&private_repo));
    assert!(!repo_eligible(&prefixed));
    let kept = eligible_repos(vec![ok.clone(), archived, private_repo, prefixed]);
    assert_eq!(kept.len(), 1);
    assert_eq!(kept[0].name, "tools");
}

#[test]
fn missing_resource_classification() {
    assert!(is_missing_resource(404, "whatever"));
    assert!(is_missing_resource(410, ""));
    assert!(is_missing_resource(500, "not found"));
    assert!(is_missing_resource(500, "NOT FOUND."));
    assert!(!is_missing_resource(500, "server exploded"));
}

fn open_issue(id: i64, number: i64) -> IssueRow {
    IssueRow {
        id,
        repo: "repo1".to_string(),
        number,
        state: IssueState::Open,
        author: "alice".to_string(),
        title: "bug".to_string(),
        created_at: Some(1_699_920_000),
        updated_at: Some(1_699_920_000),
        closed_at: None,
        deleted_at: None,
        payload: "{}".to_string(),
    }
}

#[test]
fn sweep_marks_vanished_issue_deleted() {
    let mut store = Store::new();
    store.upsert_issue(open_issue(1, 11));
    store.upsert_issue(open_issue(2, 12));
    let local = open_issue_numbers(&store, "repo1");
    assert_eq!(local, vec![11, 12]);
    // The remote open set still lists 11 only.
    let to_probe = missing_from_remote(&local, &vec![11]);
    assert_eq!(to_probe, vec![12]);
    apply_probe(&mut store, "repo1", 12, &IssueProbe::Gone, 1_700_049_600);
    let row = store.issues.iter().find(|r| r.number == 12).unwrap();
    assert_eq!(row.state, IssueState::Deleted);
    assert_eq!(row.deleted_at, Some(1_700_049_600));
}

#[test]
fn sweep_takes_over_ordinary_closure() {
    let mut store = Store::new();
    store.upsert_issue(open_issue(1, 11));
    let probe = IssueProbe::Found {
        state: Some("closed".to_string()),
        closed_at: Some("2023-11-15T05:00:00Z".to_string()),
    };
    apply_probe(&mut store, "repo1", 11, &probe, 1_700_049_600);
    let row = &store.issues[0];
    assert_eq!(row.state, IssueState::Closed);
    assert_eq!(row.closed_at, Some(1_700_024_400));
    assert_eq!(row.deleted_at, None);
}

#[test]
fn deletion_is_irreversible() {
    // Once deleted, neither a later sync upsert nor another probe reverts
    // the issue to open.
    let mut store = Store::new();
    store.upsert_issue(open_issue(1, 11));
    apply_probe(&mut store, "repo1", 11, &IssueProbe::Gone, 1_700_049_600);
    assert_eq!(store.issues[0].state, IssueState::Deleted);

    // A raw record for the same id arrives again.
    let page = vec![raw_issue(1, 11, "2023-11-15T12:00:00Z")];
    apply_issue_page(&mut store, "repo1", &page, 0, 1_700_049_600);
    assert_eq!(store.issues[0].state, IssueState::Deleted);

    // And another probe claims it is open again.
    let probe = IssueProbe::Found { state: Some("open".to_string()), closed_at: None };
    apply_probe(&mut store, "repo1", 11, &probe, 1_700_049_600);
    assert_eq!(store.issues[0].state, IssueState::Deleted);
    assert_eq!(store.issues[0].deleted_at, Some(1_700_049_600));
}
