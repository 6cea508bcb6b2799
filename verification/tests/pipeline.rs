use pfl_forge::config::ModelSettings;
use pfl_forge::execute::{report, ExecuteResult};
use pfl_forge::pipeline::{Action, Event, Pipeline, Stage};
use pfl_forge::status::{IssueStatus, Timestamp};
use pfl_forge::task::{ForgeIssue, TaskSource};
use pfl_forge::tracker::StateTracker;
use pfl_forge::triage::{AnalysisResult, ConsultationOutcome, ReviewResult};

fn now() -> Timestamp {
    Timestamp { secs: 1_700_000_000, nanos: 5 }
}

fn issue() -> ForgeIssue {
    ForgeIssue {
        number: 12,
        title: "Fix the parser".into(),
        body: "It crashes.".into(),
        labels: vec!["forge".into()],
        repo_name: "backend".into(),
        owner: "acme".into(),
        repo: "backend".into(),
        created_at: Timestamp { secs: 1, nanos: 0 },
        source: TaskSource::GitHub,
    }
}

fn plan(files: Vec<&str>) -> AnalysisResult {
    AnalysisResult {
        complexity: "high".into(),
        plan: "Guard the index".into(),
        relevant_files: files.into_iter().map(|s| s.to_string()).collect(),
        implementation_steps: vec!["add check".into()],
        context: "parser module".into(),
    }
}

fn rejected() -> ReviewResult {
    ReviewResult { approved: false, issues: vec!["off by one".into()], suggestions: vec![] }
}

fn approved() -> ReviewResult {
    ReviewResult { approved: true, issues: vec![], suggestions: vec!["rename".into()] }
}

/// Takes a started machine to the review of one attempt.
fn run_attempt(p: &mut Pipeline, t: &mut StateTracker) {
    assert_eq!(p.stage(), Stage::Workspace);
    assert_eq!(p.step(Event::WorkspaceReady, t, now()), Action::RunAgent);
    assert_eq!(p.step(Event::AgentFinished, t, now()), Action::CountCommits);
    assert_eq!(p.step(Event::CommitsCounted(2), t, now()), Action::Rebase);
    assert_eq!(p.step(Event::RebaseClean, t, now()), Action::RunTests);
    assert_eq!(p.step(Event::TestsPassed, t, now()), Action::RunReview);
    assert_eq!(p.stage(), Stage::Review);
}

fn started(max_retries: u32) -> (Pipeline, StateTracker) {
    let mut tracker = StateTracker::new();
    let (mut p, action) = Pipeline::start(issue(), false, max_retries, &mut tracker, now());
    assert_eq!(action, Action::RunTriage);
    assert_eq!(p.step(Event::Triaged(plan(vec!["src/a.rs"])), &mut tracker, now()), Action::PrepareWorkspace);
    (p, tracker)
}

#[test]
fn start_enters_the_task_as_triaging() {
    let mut tracker = StateTracker::new();
    let (p, action) = Pipeline::start(issue(), false, 2, &mut tracker, now());
    assert_eq!(action, Action::RunTriage);
    assert_eq!(p.stage(), Stage::Triage);
    assert_eq!(p.attempts(), 0);
    let record = tracker.get("acme/backend", 12).unwrap();
    assert_eq!(record.status, IssueStatus::Triaging);
    assert_eq!(record.title, "Fix the parser");
    assert_eq!(record.started_at, Some(now()));
}

#[test]
fn sufficient_plan_goes_to_implementation() {
    let (p, tracker) = started(2);
    assert_eq!(p.stage(), Stage::Workspace);
    assert_eq!(p.attempts(), 1);
    let record = tracker.get("acme/backend", 12).unwrap();
    assert_eq!(record.status, IssueStatus::Executing);
    assert_eq!(record.branch.as_deref(), Some("forge/issue-12"));
    assert_eq!(p.analysis().unwrap().plan, "Guard the index");
}

#[test]
fn empty_files_go_to_consult_and_resolved_goes_on() {
    let mut tracker = StateTracker::new();
    let (mut p, _) = Pipeline::start(issue(), false, 2, &mut tracker, now());
    let action = p.step(Event::Triaged(plan(vec![])), &mut tracker, now());
    assert_eq!(action, Action::RunConsult);
    assert_eq!(p.stage(), Stage::Consult);
    assert_eq!(tracker.get("acme/backend", 12).unwrap().status, IssueStatus::Triaging);
    let resolved = ConsultationOutcome::Resolved(plan(vec!["src/a.rs", "src/b.rs"]));
    let action = p.step(Event::Consulted(resolved), &mut tracker, now());
    assert_eq!(action, Action::PrepareWorkspace);
    assert_eq!(p.stage(), Stage::Workspace);
    assert_eq!(p.analysis().unwrap().relevant_files.len(), 2);
    assert_eq!(tracker.get("acme/backend", 12).unwrap().status, IssueStatus::Executing);
    assert!(p.question().is_none());
}

#[test]
fn consult_with_a_question_pauses_the_task() {
    let mut tracker = StateTracker::new();
    let (mut p, _) = Pipeline::start(issue(), false, 2, &mut tracker, now());
    p.step(Event::Triaged(plan(vec![])), &mut tracker, now());
    let asked = ConsultationOutcome::NeedsClarification("Which parser?".into());
    assert_eq!(p.step(Event::Consulted(asked), &mut tracker, now()), Action::AskHuman);
    assert_eq!(p.stage(), Stage::Paused);
    assert_eq!(p.question().map(|q| q.as_str()), Some("Which parser?"));
    assert_eq!(
        tracker.get("acme/backend", 12).unwrap().status,
        IssueStatus::NeedsClarification
    );
    // A paused machine takes no event.
    assert_eq!(p.step(Event::WorkspaceReady, &mut tracker, now()), Action::Idle);
    assert_eq!(p.step(Event::Reviewed(approved()), &mut tracker, now()), Action::Idle);
    assert_eq!(p.stage(), Stage::Paused);
    assert_eq!(
        tracker.get("acme/backend", 12).unwrap().status,
        IssueStatus::NeedsClarification
    );
}

#[test]
fn zero_commits_end_as_error() {
    let (mut p, mut tracker) = started(2);
    p.step(Event::WorkspaceReady, &mut tracker, now());
    p.step(Event::AgentFinished, &mut tracker, now());
    assert_eq!(p.step(Event::CommitsCounted(0), &mut tracker, now()), Action::Finish);
    assert_eq!(p.stage(), Stage::Done);
    let record = tracker.get("acme/backend", 12).unwrap();
    assert_eq!(record.status, IssueStatus::Error);
    assert_eq!(record.error.as_deref(), Some("no commits produced"));
    assert_eq!(record.completed_at, Some(now()));
    assert!(matches!(p.outcome(), Some(ExecuteResult::Unclear(m)) if m == "no commits produced"));
}

#[test]
fn failed_commit_count_counts_as_no_commit() {
    let (mut p, mut tracker) = started(2);
    p.step(Event::WorkspaceReady, &mut tracker, now());
    p.step(Event::AgentFinished, &mut tracker, now());
    assert_eq!(p.step(Event::CommitCountFailed, &mut tracker, now()), Action::Finish);
    assert_eq!(
        tracker.get("acme/backend", 12).unwrap().error.as_deref(),
        Some("no commits produced")
    );
}

#[test]
fn rebase_conflict_ends_as_error_without_retry() {
    let (mut p, mut tracker) = started(2);
    p.step(Event::WorkspaceReady, &mut tracker, now());
    p.step(Event::AgentFinished, &mut tracker, now());
    p.step(Event::CommitsCounted(3), &mut tracker, now());
    let action = p.step(Event::RebaseConflict("CONFLICT in a.rs".into()), &mut tracker, now());
    assert_eq!(action, Action::Finish);
    assert_eq!(p.stage(), Stage::Done);
    assert_eq!(p.attempts(), 1);
    let record = tracker.get("acme/backend", 12).unwrap();
    assert_eq!(record.status, IssueStatus::Error);
    assert_eq!(record.error.as_deref(), Some("rebase conflict"));
    assert_eq!(record.branch.as_deref(), Some("forge/issue-12"));
    assert_eq!(p.step(Event::RebaseClean, &mut tracker, now()), Action::Idle);
}

#[test]
fn approval_ends_as_success() {
    let (mut p, mut tracker) = started(2);
    run_attempt(&mut p, &mut tracker);
    assert_eq!(p.step(Event::Reviewed(approved()), &mut tracker, now()), Action::Finish);
    let record = tracker.get("acme/backend", 12).unwrap();
    assert_eq!(record.status, IssueStatus::Success);
    assert_eq!(record.error, None);
    assert!(matches!(p.outcome(), Some(ExecuteResult::Success { commits: 2 })));
}

#[test]
fn review_that_could_not_run_counts_as_approval() {
    let (mut p, mut tracker) = started(2);
    run_attempt(&mut p, &mut tracker);
    let action = p.step(Event::ReviewFailed("timeout".into()), &mut tracker, now());
    assert_eq!(action, Action::Finish);
    assert_eq!(tracker.get("acme/backend", 12).unwrap().status, IssueStatus::Success);
}

#[test]
fn rejection_on_every_attempt_exhausts_the_budget() {
    let retries = 2;
    let (mut p, mut tracker) = started(retries);
    let mut implement_attempts = 0;
    loop {
        implement_attempts += 1;
        assert_eq!(p.attempts(), implement_attempts);
        run_attempt(&mut p, &mut tracker);
        let action = p.step(Event::Reviewed(rejected()), &mut tracker, now());
        if action == Action::Finish {
            break;
        }
        assert_eq!(action, Action::PrepareWorkspace);
        assert_eq!(p.feedback().unwrap().issues, vec!["off by one"]);
        assert_eq!(tracker.get("acme/backend", 12).unwrap().status, IssueStatus::Executing);
        assert!(implement_attempts < 10);
    }
    assert_eq!(implement_attempts, 3);
    assert_eq!(p.attempts(), 3);
    assert_eq!(p.stage(), Stage::Done);
    let record = tracker.get("acme/backend", 12).unwrap();
    assert_eq!(record.status, IssueStatus::Error);
    assert_eq!(record.error.as_deref(), Some("review rejected after 3 attempts"));
    // No further attempt can be started.
    assert_eq!(p.step(Event::WorkspaceReady, &mut tracker, now()), Action::Idle);
    assert_eq!(p.attempts(), 3);
}

#[test]
fn no_retries_allows_one_attempt() {
    let (mut p, mut tracker) = started(0);
    run_attempt(&mut p, &mut tracker);
    assert_eq!(p.step(Event::Reviewed(rejected()), &mut tracker, now()), Action::Finish);
    assert_eq!(
        tracker.get("acme/backend", 12).unwrap().error.as_deref(),
        Some("review rejected after 1 attempts")
    );
}

#[test]
fn rejection_then_approval() {
    let (mut p, mut tracker) = started(1);
    run_attempt(&mut p, &mut tracker);
    assert_eq!(p.step(Event::Reviewed(rejected()), &mut tracker, now()), Action::PrepareWorkspace);
    run_attempt(&mut p, &mut tracker);
    assert_eq!(p.step(Event::Reviewed(approved()), &mut tracker, now()), Action::Finish);
    assert_eq!(p.attempts(), 2);
    assert_eq!(tracker.get("acme/backend", 12).unwrap().status, IssueStatus::Success);
}

#[test]
fn failed_tests_end_as_test_failure() {
    let (mut p, mut tracker) = started(2);
    p.step(Event::WorkspaceReady, &mut tracker, now());
    p.step(Event::AgentFinished, &mut tracker, now());
    p.step(Event::CommitsCounted(1), &mut tracker, now());
    p.step(Event::RebaseClean, &mut tracker, now());
    assert_eq!(p.step(Event::TestsFailed, &mut tracker, now()), Action::Finish);
    let record = tracker.get("acme/backend", 12).unwrap();
    assert_eq!(record.status, IssueStatus::TestFailure);
    assert_eq!(record.error.as_deref(), Some("tests failed after rebase"));
    assert!(matches!(p.outcome(), Some(ExecuteResult::TestFailure { commits: 1, .. })));
}

#[test]
fn tests_that_could_not_run_end_as_test_failure() {
    let (mut p, mut tracker) = started(2);
    p.step(Event::WorkspaceReady, &mut tracker, now());
    p.step(Event::AgentFinished, &mut tracker, now());
    p.step(Event::CommitsCounted(1), &mut tracker, now());
    p.step(Event::RebaseClean, &mut tracker, now());
    p.step(Event::TestsErrored("no such file".into()), &mut tracker, now());
    assert_eq!(
        tracker.get("acme/backend", 12).unwrap().error.as_deref(),
        Some("Test execution error: no such file")
    );
}

#[test]
fn stage_failures_end_as_error_with_their_message() {
    let mut tracker = StateTracker::new();
    let (mut p, _) = Pipeline::start(issue(), false, 2, &mut tracker, now());
    assert_eq!(p.step(Event::TriageFailed("bad json".into()), &mut tracker, now()), Action::Finish);
    let record = tracker.get("acme/backend", 12).unwrap();
    assert_eq!(record.status, IssueStatus::Error);
    assert_eq!(record.error.as_deref(), Some("bad json"));

    let mut tracker = StateTracker::new();
    let (mut p, _) = Pipeline::start(issue(), false, 2, &mut tracker, now());
    p.step(Event::Triaged(plan(vec![])), &mut tracker, now());
    assert_eq!(p.step(Event::ConsultFailed("timeout".into()), &mut tracker, now()), Action::Finish);
    assert_eq!(tracker.get("acme/backend", 12).unwrap().error.as_deref(), Some("timeout"));

    let (mut p, mut tracker) = started(2);
    assert_eq!(p.step(Event::WorkspaceFailed("disk full".into()), &mut tracker, now()), Action::Finish);
    assert_eq!(tracker.get("acme/backend", 12).unwrap().error.as_deref(), Some("disk full"));

    let (mut p, mut tracker) = started(2);
    p.step(Event::WorkspaceReady, &mut tracker, now());
    assert_eq!(p.step(Event::AgentFailed("killed".into()), &mut tracker, now()), Action::Finish);
    assert_eq!(tracker.get("acme/backend", 12).unwrap().error.as_deref(), Some("killed"));
}

#[test]
fn docker_is_checked_where_it_is_required() {
    let mut tracker = StateTracker::new();
    let (mut p, _) = Pipeline::start(issue(), true, 2, &mut tracker, now());
    p.step(Event::Triaged(plan(vec!["a"])), &mut tracker, now());
    assert_eq!(p.step(Event::WorkspaceReady, &mut tracker, now()), Action::CheckDocker);
    assert_eq!(p.step(Event::DockerRunning, &mut tracker, now()), Action::RunAgent);

    let mut tracker = StateTracker::new();
    let (mut p, _) = Pipeline::start(issue(), true, 2, &mut tracker, now());
    p.step(Event::Triaged(plan(vec!["a"])), &mut tracker, now());
    p.step(Event::WorkspaceReady, &mut tracker, now());
    assert_eq!(p.step(Event::DockerDown("daemon".into()), &mut tracker, now()), Action::Finish);
    assert_eq!(
        tracker.get("acme/backend", 12).unwrap().error.as_deref(),
        Some("Docker not running: daemon")
    );
}

#[test]
fn events_out_of_turn_change_nothing() {
    let (mut p, mut tracker) = started(2);
    assert_eq!(p.step(Event::Reviewed(approved()), &mut tracker, now()), Action::Idle);
    assert_eq!(p.step(Event::CommitsCounted(3), &mut tracker, now()), Action::Idle);
    assert_eq!(p.step(Event::Triaged(plan(vec!["x"])), &mut tracker, now()), Action::Idle);
    assert_eq!(p.stage(), Stage::Workspace);
    assert_eq!(p.attempts(), 1);
    assert_eq!(tracker.get("acme/backend", 12).unwrap().status, IssueStatus::Executing);
}

#[test]
fn a_machine_leaves_other_tasks_alone() {
    let mut tracker = StateTracker::new();
    tracker.set_status("acme/backend", 1, "done", IssueStatus::Success);
    tracker.set_status("acme/other", 12, "waiting", IssueStatus::NeedsClarification);
    let (mut p, _) = Pipeline::start(issue(), false, 0, &mut tracker, now());
    p.step(Event::Triaged(plan(vec!["a"])), &mut tracker, now());
    run_attempt(&mut p, &mut tracker);
    p.step(Event::Reviewed(rejected()), &mut tracker, now());
    assert_eq!(tracker.get("acme/backend", 12).unwrap().status, IssueStatus::Error);
    let done = tracker.get("acme/backend", 1).unwrap();
    assert_eq!(done.status, IssueStatus::Success);
    assert_eq!(done.title, "done");
    assert_eq!(done.error, None);
    assert_eq!(
        tracker.get("acme/other", 12).unwrap().status,
        IssueStatus::NeedsClarification
    );
}

#[test]
fn advance_reads_the_clock() {
    let mut tracker = StateTracker::new();
    let (mut p, _) = Pipeline::start(issue(), false, 2, &mut tracker, now());
    assert_eq!(p.advance(Event::TriageFailed("x".into()), &mut tracker), Action::Finish);
    let record = tracker.get("acme/backend", 12).unwrap();
    assert!(record.completed_at.unwrap().secs > 1_600_000_000);
}

#[test]
fn agent_stages_need_a_permit() {
    assert!(Action::RunTriage.needs_permit());
    assert!(Action::RunConsult.needs_permit());
    assert!(Action::RunAgent.needs_permit());
    assert!(Action::RunReview.needs_permit());
    assert!(!Action::PrepareWorkspace.needs_permit());
    assert!(!Action::CheckDocker.needs_permit());
    assert!(!Action::CountCommits.needs_permit());
    assert!(!Action::Rebase.needs_permit());
    assert!(!Action::RunTests.needs_permit());
    assert!(!Action::AskHuman.needs_permit());
    assert!(!Action::Finish.needs_permit());
    assert!(!Action::Idle.needs_permit());
}

#[test]
fn model_follows_the_complexity_of_the_plan() {
    let models = ModelSettings { triage: "haiku".into(), default: "sonnet".into(), complex: "opus".into() };
    let mut tracker = StateTracker::new();
    let (mut p, _) = Pipeline::start(issue(), false, 2, &mut tracker, now());
    assert_eq!(p.model(&models), "sonnet");
    p.step(Event::Triaged(plan(vec!["a"])), &mut tracker, now());
    assert_eq!(p.model(&models), "opus");
    assert_eq!(p.issue().number, 12);
}

#[test]
fn report_enters_each_end() {
    let mut tracker = StateTracker::new();
    tracker.set_status("o/r", 1, "a", IssueStatus::Executing);
    tracker.set_status("o/r", 2, "b", IssueStatus::Executing);
    tracker.set_status("o/r", 3, "c", IssueStatus::Executing);
    tracker.set_status("o/r", 4, "d", IssueStatus::Executing);
    report("o/r", 1, &ExecuteResult::Success { commits: 1 }, &mut tracker, now());
    report(
        "o/r",
        2,
        &ExecuteResult::TestFailure { commits: 1, output: "2 failed".into() },
        &mut tracker,
        now(),
    );
    report("o/r", 3, &ExecuteResult::Unclear("nothing".into()), &mut tracker, now());
    report("o/r", 4, &ExecuteResult::Error("crash".into()), &mut tracker, now());
    report("o/r", 5, &ExecuteResult::Error("unknown".into()), &mut tracker, now());
    assert_eq!(tracker.get("o/r", 1).unwrap().status, IssueStatus::Success);
    assert_eq!(tracker.get("o/r", 2).unwrap().status, IssueStatus::TestFailure);
    assert_eq!(tracker.get("o/r", 2).unwrap().error.as_deref(), Some("2 failed"));
    assert_eq!(tracker.get("o/r", 3).unwrap().status, IssueStatus::Error);
    assert_eq!(tracker.get("o/r", 3).unwrap().error.as_deref(), Some("nothing"));
    assert_eq!(tracker.get("o/r", 4).unwrap().error.as_deref(), Some("crash"));
    assert!(tracker.get("o/r", 5).is_none());
}
