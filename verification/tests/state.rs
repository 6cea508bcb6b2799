use pfl_forge::status::IssueStatus;
use pfl_forge::tracker::StateTracker;

#[test]
fn test_is_terminal() {
    assert!(IssueStatus::PrCreated.is_terminal());
    assert!(IssueStatus::Skipped.is_terminal());
    assert!(IssueStatus::NeedsClarification.is_terminal());
    assert!(IssueStatus::Error.is_terminal());
    assert!(IssueStatus::TestFailure.is_terminal());
    assert!(!IssueStatus::Pending.is_terminal());
    assert!(!IssueStatus::Triaging.is_terminal());
    assert!(!IssueStatus::Executing.is_terminal());
    assert!(IssueStatus::Success.is_terminal());
}

#[test]
fn test_is_resumable() {
    assert!(IssueStatus::Triaging.is_resumable());
    assert!(IssueStatus::Executing.is_resumable());
    assert!(IssueStatus::Error.is_resumable());
    assert!(IssueStatus::TestFailure.is_resumable());
    assert!(!IssueStatus::Pending.is_resumable());
    assert!(!IssueStatus::PrCreated.is_resumable());
    assert!(!IssueStatus::Skipped.is_resumable());
    assert!(!IssueStatus::Success.is_resumable());
}

#[test]
fn test_state_tracker_roundtrip() {
    let mut tracker = StateTracker::new();
    tracker.set_status("owner/repo", 1, "Test issue", IssueStatus::Executing);
    tracker.set_branch("owner/repo", 1, "forge/issue-1");

    // Rebuild from the records and verify
    let tracker2 = StateTracker::from_records(tracker.all_issues().clone());
    let state = tracker2.get("owner/repo", 1).unwrap();
    assert_eq!(state.status, IssueStatus::Executing);
    assert_eq!(state.branch.as_deref(), Some("forge/issue-1"));
}

#[test]
fn test_is_processed() {
    let mut tracker = StateTracker::new();

    tracker.set_status("owner/repo", 1, "Test", IssueStatus::PrCreated);
    assert!(tracker.is_processed("owner/repo", 1));

    tracker.set_status("owner/repo", 2, "Test2", IssueStatus::Executing);
    assert!(!tracker.is_processed("owner/repo", 2));
}

use pfl_forge::status::{IssueState, Timestamp};

fn at(secs: i64) -> Timestamp {
    Timestamp { secs, nanos: 0 }
}

#[test]
fn set_status_creates_a_pending_record_first() {
    let mut tracker = StateTracker::new();
    assert!(tracker.get("o/r", 7).is_none());
    tracker.set_status("o/r", 7, "Title", IssueStatus::Triaging);
    let record = tracker.get("o/r", 7).unwrap();
    assert_eq!(record.repo, "o/r");
    assert_eq!(record.number, 7);
    assert_eq!(record.title, "Title");
    assert_eq!(record.status, IssueStatus::Triaging);
    assert_eq!(record.branch, None);
    assert_eq!(record.pr_number, None);
    assert_eq!(record.started_at, None);
    assert_eq!(record.completed_at, None);
    assert_eq!(record.error, None);
    // The title of a record that exists is kept.
    tracker.set_status("o/r", 7, "Other", IssueStatus::Executing);
    assert_eq!(tracker.get("o/r", 7).unwrap().title, "Title");
    assert_eq!(tracker.all_issues().len(), 1);
}

#[test]
fn records_are_told_apart_by_repo_and_number() {
    let mut tracker = StateTracker::new();
    tracker.set_status("o/r", 1, "a", IssueStatus::Pending);
    tracker.set_status("o/r", 2, "b", IssueStatus::Success);
    tracker.set_status("o/s", 1, "c", IssueStatus::Error);
    assert_eq!(tracker.all_issues().len(), 3);
    assert_eq!(tracker.get("o/r", 2).unwrap().title, "b");
    assert_eq!(tracker.get("o/s", 1).unwrap().title, "c");
    assert!(tracker.get("o/s", 2).is_none());
}

#[test]
fn mutators_leave_unknown_tasks_alone() {
    let mut tracker = StateTracker::new();
    tracker.set_branch("o/r", 1, "b");
    tracker.set_error_at("o/r", 1, "e", at(5));
    tracker.set_pr_at("o/r", 1, 9, at(5));
    tracker.set_started_at("o/r", 1, at(5));
    tracker.reset_to_pending("o/r", 1);
    assert_eq!(tracker.all_issues().len(), 0);
}

#[test]
fn set_error_and_reset_to_pending() {
    let mut tracker = StateTracker::new();
    tracker.set_status("o/r", 1, "a", IssueStatus::Executing);
    tracker.set_error_at("o/r", 1, "no commits produced", at(42));
    let record = tracker.get("o/r", 1).unwrap();
    assert_eq!(record.status, IssueStatus::Error);
    assert_eq!(record.error.as_deref(), Some("no commits produced"));
    assert_eq!(record.completed_at, Some(at(42)));
    tracker.reset_to_pending("o/r", 1);
    let record = tracker.get("o/r", 1).unwrap();
    assert_eq!(record.status, IssueStatus::Pending);
    assert_eq!(record.error, None);
    // Resetting twice changes nothing more.
    tracker.reset_to_pending("o/r", 1);
    assert_eq!(tracker.get("o/r", 1).unwrap().status, IssueStatus::Pending);
}

#[test]
fn set_pr_started_success_and_test_failure() {
    let mut tracker = StateTracker::new();
    tracker.set_status("o/r", 1, "a", IssueStatus::Triaging);
    tracker.set_started_at("o/r", 1, at(10));
    assert_eq!(tracker.get("o/r", 1).unwrap().started_at, Some(at(10)));
    tracker.set_pr_at("o/r", 1, 77, at(11));
    let record = tracker.get("o/r", 1).unwrap();
    assert_eq!(record.pr_number, Some(77));
    assert_eq!(record.status, IssueStatus::PrCreated);
    assert_eq!(record.completed_at, Some(at(11)));
    tracker.set_test_failure_at("o/r", 1, "tests failed after rebase", at(12));
    let record = tracker.get("o/r", 1).unwrap();
    assert_eq!(record.status, IssueStatus::TestFailure);
    assert_eq!(record.error.as_deref(), Some("tests failed after rebase"));
    tracker.set_success_at("o/r", 1, at(13));
    let record = tracker.get("o/r", 1).unwrap();
    assert_eq!(record.status, IssueStatus::Success);
    assert_eq!(record.completed_at, Some(at(13)));
}

#[test]
fn clock_reading_mutators_stamp_the_record() {
    let mut tracker = StateTracker::new();
    tracker.set_status("o/r", 1, "a", IssueStatus::Triaging);
    tracker.set_started("o/r", 1);
    tracker.set_error("o/r", 1, "boom");
    let record = tracker.get("o/r", 1).unwrap();
    let started = record.started_at.unwrap();
    let completed = record.completed_at.unwrap();
    assert!(started.secs > 1_600_000_000);
    assert!(started.nanos < 1_000_000_000);
    assert!(completed.secs >= started.secs);
    assert_eq!(record.status, IssueStatus::Error);
    tracker.set_pr("o/r", 1, 3);
    assert_eq!(tracker.get("o/r", 1).unwrap().pr_number, Some(3));
}

#[test]
fn terminal_and_resumable_by_task() {
    let mut tracker = StateTracker::new();
    tracker.set_status("o/r", 1, "a", IssueStatus::Success);
    tracker.set_status("o/r", 2, "b", IssueStatus::Error);
    tracker.set_status("o/r", 3, "c", IssueStatus::Executing);
    assert!(tracker.is_terminal("o/r", 1));
    assert!(tracker.is_terminal("o/r", 2));
    assert!(!tracker.is_terminal("o/r", 3));
    assert!(!tracker.is_terminal("o/r", 4));
    assert!(!tracker.is_resumable("o/r", 1));
    assert!(tracker.is_resumable("o/r", 2));
    assert!(tracker.is_resumable("o/r", 3));
    assert!(!tracker.is_resumable("o/r", 4));
    assert!(!tracker.is_processed("o/r", 4));
}

#[test]
fn resumable_and_waiting_tasks_in_order() {
    let mut tracker = StateTracker::new();
    tracker.set_status("o/r", 5, "a", IssueStatus::Error);
    tracker.set_status("o/r", 1, "b", IssueStatus::NeedsClarification);
    tracker.set_status("o/s", 2, "c", IssueStatus::Triaging);
    tracker.set_status("o/r", 3, "d", IssueStatus::Success);
    tracker.set_status("o/r", 4, "e", IssueStatus::NeedsClarification);
    assert_eq!(
        tracker.resumable_issues(),
        vec![("o/r".to_string(), 5), ("o/s".to_string(), 2)]
    );
    assert_eq!(
        tracker.needs_clarification_issues(),
        vec![("o/r".to_string(), 1), ("o/r".to_string(), 4)]
    );
}

#[test]
fn summary_counts_each_group() {
    let mut tracker = StateTracker::new();
    let statuses = [
        IssueStatus::Pending,
        IssueStatus::Triaging,
        IssueStatus::Executing,
        IssueStatus::Success,
        IssueStatus::PrCreated,
        IssueStatus::Skipped,
        IssueStatus::NeedsClarification,
        IssueStatus::TestFailure,
        IssueStatus::Error,
        IssueStatus::Error,
    ];
    for (i, status) in statuses.iter().enumerate() {
        tracker.set_status("o/r", i as u64, "t", *status);
    }
    let summary = tracker.summary();
    assert_eq!(summary.pending, 1);
    assert_eq!(summary.in_progress, 2);
    assert_eq!(summary.completed, 2);
    assert_eq!(summary.skipped, 2);
    assert_eq!(summary.failed, 3);
    assert_eq!(
        summary.to_text(),
        "pending=1, in_progress=2, completed=2, skipped=2, failed=3"
    );
    assert_eq!(
        StateTracker::new().summary().to_text(),
        "pending=0, in_progress=0, completed=0, skipped=0, failed=0"
    );
}

#[test]
fn from_records_keeps_the_first_record_of_a_task() {
    let record = |repo: &str, number: u64, title: &str| IssueState {
        repo: repo.into(),
        number,
        title: title.into(),
        status: IssueStatus::Pending,
        branch: None,
        pr_number: None,
        started_at: None,
        completed_at: None,
        error: None,
    };
    let tracker = StateTracker::from_records(vec![
        record("o/r", 1, "first"),
        record("o/r", 2, "second"),
        record("o/r", 1, "again"),
    ]);
    assert_eq!(tracker.all_issues().len(), 2);
    assert_eq!(tracker.get("o/r", 1).unwrap().title, "first");
    assert_eq!(tracker.get("o/r", 2).unwrap().title, "second");
}
