use pfl_forge::pipeline::{Action, Event, Stage};
use pfl_forge::run::Run;
use pfl_forge::status::{IssueStatus, Timestamp};
use pfl_forge::task::{ForgeIssue, TaskSource};
use pfl_forge::tracker::StateTracker;
use pfl_forge::triage::{AnalysisResult, ConsultationOutcome, ReviewResult};

fn now() -> Timestamp {
    Timestamp { secs: 1_700_000_000, nanos: 0 }
}

fn issue(number: u64) -> ForgeIssue {
    ForgeIssue {
        number,
        title: format!("task {}", number),
        body: String::new(),
        labels: vec![],
        repo_name: "web".into(),
        owner: "acme".into(),
        repo: "web".into(),
        created_at: Timestamp { secs: 0, nanos: 0 },
        source: TaskSource::GitHub,
    }
}

fn plan(files: Vec<&str>) -> AnalysisResult {
    AnalysisResult {
        complexity: "low".into(),
        plan: "p".into(),
        relevant_files: files.into_iter().map(|s| s.to_string()).collect(),
        implementation_steps: vec!["s".into()],
        context: String::new(),
    }
}

fn begin(tasks: u64, capacity: usize, tracker: &mut StateTracker) -> Run {
    let batch: Vec<(ForgeIssue, bool)> = (1..=tasks).map(|n| (issue(n), false)).collect();
    Run::begin(batch, 1, capacity, tracker, now())
}

#[test]
fn begin_enters_every_task() {
    let mut tracker = StateTracker::new();
    let run = begin(3, 2, &mut tracker);
    assert_eq!(run.len(), 3);
    assert!(run.machine(3).is_none());
    assert!(!run.is_finished());
    assert_eq!(run.permits_in_use(), 0);
    for n in 1..=3 {
        let record = tracker.get("acme/web", n).unwrap();
        assert_eq!(record.status, IssueStatus::Triaging);
        assert_eq!(record.started_at, Some(now()));
        assert_eq!(run.machine(n as usize - 1).unwrap().issue().number, n);
        assert_eq!(run.machine(n as usize - 1).unwrap().stage(), Stage::Triage);
    }
}

#[test]
fn the_agent_runs_no_more_often_than_the_slots_allow() {
    let mut tracker = StateTracker::new();
    let mut run = begin(3, 2, &mut tracker);
    assert_eq!(run.next(), Some((0, Action::RunTriage)));
    assert_eq!(run.next(), Some((1, Action::RunTriage)));
    assert_eq!(run.permits_in_use(), 2);
    // The third triage has to wait for a slot.
    assert_eq!(run.next(), None);
    assert_eq!(run.permits_in_use(), 2);
    let answer = run.complete(0, Event::Triaged(plan(vec!["a"])), &mut tracker, now());
    assert_eq!(answer, Action::PrepareWorkspace);
    assert_eq!(run.permits_in_use(), 1);
    // Work that does not invoke the agent needs no slot.
    assert_eq!(run.next(), Some((0, Action::PrepareWorkspace)));
    assert_eq!(run.next(), Some((2, Action::RunTriage)));
    assert_eq!(run.permits_in_use(), 2);
    assert_eq!(run.next(), None);
}

#[test]
fn work_without_the_agent_goes_on_when_no_slot_is_free() {
    let mut tracker = StateTracker::new();
    let mut run = begin(2, 1, &mut tracker);
    assert_eq!(run.next(), Some((0, Action::RunTriage)));
    run.complete(0, Event::Triaged(plan(vec!["a"])), &mut tracker, now());
    assert_eq!(run.next(), Some((0, Action::PrepareWorkspace)));
    assert_eq!(run.next(), Some((1, Action::RunTriage)));
    run.complete(0, Event::WorkspaceReady, &mut tracker, now());
    // The agent of the first task waits while the second is triaged.
    assert_eq!(run.next(), None);
    run.complete(1, Event::TriageFailed("x".into()), &mut tracker, now());
    assert_eq!(run.next(), Some((0, Action::RunAgent)));
}

#[test]
fn a_task_is_in_one_hand_at_a_time() {
    let mut tracker = StateTracker::new();
    let mut run = begin(1, 4, &mut tracker);
    assert_eq!(run.next(), Some((0, Action::RunTriage)));
    assert_eq!(run.next(), None);
    assert_eq!(run.next(), None);
    assert!(!run.is_finished());
    run.complete(0, Event::Triaged(plan(vec!["a"])), &mut tracker, now());
    assert_eq!(run.next(), Some((0, Action::PrepareWorkspace)));
    assert_eq!(run.next(), None);
}

#[test]
fn an_event_for_a_task_in_no_hand_changes_nothing() {
    let mut tracker = StateTracker::new();
    let mut run = begin(1, 1, &mut tracker);
    assert_eq!(run.complete(0, Event::TriageFailed("x".into()), &mut tracker, now()), Action::Idle);
    assert_eq!(run.complete(7, Event::WorkspaceReady, &mut tracker, now()), Action::Idle);
    assert_eq!(run.machine(0).unwrap().stage(), Stage::Triage);
    assert_eq!(tracker.get("acme/web", 1).unwrap().status, IssueStatus::Triaging);
    assert_eq!(run.next(), Some((0, Action::RunTriage)));
}

#[test]
fn a_run_ends_when_every_task_rests() {
    let mut tracker = StateTracker::new();
    let mut run = begin(2, 1, &mut tracker);
    // The first task ends in a question for a human.
    assert_eq!(run.next(), Some((0, Action::RunTriage)));
    assert_eq!(run.complete(0, Event::Triaged(plan(vec![])), &mut tracker, now()), Action::RunConsult);
    assert_eq!(run.next(), Some((0, Action::RunConsult)));
    let asked = Event::Consulted(ConsultationOutcome::NeedsClarification("Why?".into()));
    assert_eq!(run.complete(0, asked, &mut tracker, now()), Action::AskHuman);
    assert_eq!(run.machine(0).unwrap().question().map(|q| q.as_str()), Some("Why?"));
    assert!(!run.is_finished());
    // The second task goes all the way.
    let steps = vec![
        (Action::RunTriage, Event::Triaged(plan(vec!["a"]))),
        (Action::PrepareWorkspace, Event::WorkspaceReady),
        (Action::RunAgent, Event::AgentFinished),
        (Action::CountCommits, Event::CommitsCounted(1)),
        (Action::Rebase, Event::RebaseClean),
        (Action::RunTests, Event::TestsPassed),
    ];
    for (expected, event) in steps {
        assert_eq!(run.next(), Some((1, expected)));
        run.complete(1, event, &mut tracker, now());
    }
    assert_eq!(run.next(), Some((1, Action::RunReview)));
    let approved = ReviewResult { approved: true, issues: vec![], suggestions: vec![] };
    assert_eq!(run.complete(1, Event::Reviewed(approved), &mut tracker, now()), Action::Finish);
    assert!(run.is_finished());
    assert_eq!(run.next(), None);
    assert_eq!(run.permits_in_use(), 0);
    assert_eq!(tracker.get("acme/web", 1).unwrap().status, IssueStatus::NeedsClarification);
    assert_eq!(tracker.get("acme/web", 2).unwrap().status, IssueStatus::Success);
}

#[test]
fn an_empty_run_is_finished() {
    let mut tracker = StateTracker::new();
    let mut run = begin(0, 1, &mut tracker);
    assert!(run.is_finished());
    assert_eq!(run.next(), None);
    assert_eq!(tracker.all_issues().len(), 0);
}

#[test]
fn without_slots_only_the_agent_waits() {
    let mut tracker = StateTracker::new();
    let mut run = begin(1, 0, &mut tracker);
    assert_eq!(run.next(), None);
    assert!(!run.is_finished());
}
