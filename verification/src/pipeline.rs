//! The stage machine that takes one task from triage to its end.
//!
//! The machine decides; its caller acts. Each call of [`Pipeline::step`] takes
//! the event that reports how the last action went, enters what has to be
//! entered in the state store, and answers with the next action.

use crate::config::ModelSettings;
use crate::decimal::{decimal, u64_to_string};
use crate::execute::{report, spec_report, ExecuteResult, ExecuteResultView};
use crate::model::Complexity;
use crate::status::{IssueStateView, IssueStatus, Timestamp};
use crate::task::{ForgeIssue, ForgeIssueView};
use crate::tracker::{
    current_time, distinct_keys, lemma_amend, lemma_amend_elsewhere, lemma_same_elsewhere_trans,
    lemma_with_status, lookup, same_elsewhere, with_branch, with_error, with_started, with_status,
    StateTracker,
};
use crate::triage::{
    AnalysisResult, AnalysisResultView, ConsultationOutcome, ConsultationOutcomeView, ReviewResult,
    ReviewResultView,
};
use vstd::prelude::*;

verus! {

/// What the machine waits for.
#[derive(Debug, Clone, Copy, PartialEq, Eq, Structural)]
pub enum Stage {
    /// The plan of the triage stage.
    Triage,
    /// The outcome of the consultation.
    Consult,
    /// The sandbox of the task.
    Workspace,
    /// The answer whether the containers run.
    Docker,
    /// The end of the agent's run.
    Implement,
    /// The number of commits that the agent made.
    Commits,
    /// The end of the rebase.
    Rebase,
    /// The end of the tests.
    Test,
    /// The verdict of the review.
    Review,
    /// Nothing: the task waits for a human to answer.
    Paused,
    /// Nothing: the task has reached its end.
    Done,
}

/// How the last action went.
#[derive(Debug)]
pub enum Event {
    Triaged(AnalysisResult),
    TriageFailed(String),
    Consulted(ConsultationOutcome),
    ConsultFailed(String),
    WorkspaceReady,
    WorkspaceFailed(String),
    DockerRunning,
    DockerDown(String),
    AgentFinished,
    AgentFailed(String),
    CommitsCounted(u32),
    CommitCountFailed,
    RebaseClean,
    RebaseConflict(String),
    TestsPassed,
    TestsFailed,
    TestsErrored(String),
    Reviewed(ReviewResult),
    ReviewFailed(String),
}

/// The mathematical content of an [`Event`].
pub enum EventView {
    Triaged(AnalysisResultView),
    TriageFailed(Seq<char>),
    Consulted(ConsultationOutcomeView),
    ConsultFailed(Seq<char>),
    WorkspaceReady,
    WorkspaceFailed(Seq<char>),
    DockerRunning,
    DockerDown(Seq<char>),
    AgentFinished,
    AgentFailed(Seq<char>),
    CommitsCounted(u32),
    CommitCountFailed,
    RebaseClean,
    RebaseConflict(Seq<char>),
    TestsPassed,
    TestsFailed,
    TestsErrored(Seq<char>),
    Reviewed(ReviewResultView),
    ReviewFailed(Seq<char>),
}

impl DeepView for Event {
    type V = EventView;

    open spec fn deep_view(&self) -> EventView {
        match self {
            Event::Triaged(a) => EventView::Triaged(a@),
            Event::TriageFailed(m) => EventView::TriageFailed(m@),
            Event::Consulted(o) => EventView::Consulted(o@),
            Event::ConsultFailed(m) => EventView::ConsultFailed(m@),
            Event::WorkspaceReady => EventView::WorkspaceReady,
            Event::WorkspaceFailed(m) => EventView::WorkspaceFailed(m@),
            Event::DockerRunning => EventView::DockerRunning,
            Event::DockerDown(m) => EventView::DockerDown(m@),
            Event::AgentFinished => EventView::AgentFinished,
            Event::AgentFailed(m) => EventView::AgentFailed(m@),
            Event::CommitsCounted(n) => EventView::CommitsCounted(*n),
            Event::CommitCountFailed => EventView::CommitCountFailed,
            Event::RebaseClean => EventView::RebaseClean,
            Event::RebaseConflict(m) => EventView::RebaseConflict(m@),
            Event::TestsPassed => EventView::TestsPassed,
            Event::TestsFailed => EventView::TestsFailed,
            Event::TestsErrored(m) => EventView::TestsErrored(m@),
            Event::Reviewed(r) => EventView::Reviewed(r@),
            Event::ReviewFailed(m) => EventView::ReviewFailed(m@),
        }
    }
}

impl View for Event {
    type V = EventView;

    open spec fn view(&self) -> EventView {
        self.deep_view()
    }
}

/// What the caller has to do next.
#[derive(Debug, Clone, Copy, PartialEq, Eq, Structural)]
pub enum Action {
    /// Run the triage stage.
    RunTriage,
    /// Run the consultation on the plan at hand.
    RunConsult,
    /// Create the sandbox of the task, or find it where it exists.
    PrepareWorkspace,
    /// Ask whether the containers run.
    CheckDocker,
    /// Run the agent on the plan at hand, with the feedback at hand.
    RunAgent,
    /// Count the commits since the base branch.
    CountCommits,
    /// Rebase onto the base branch.
    Rebase,
    /// Run the tests.
    RunTests,
    /// Run the review.
    RunReview,
    /// Hand the question at hand to a human, and let the task rest.
    AskHuman,
    /// The task has reached its end: clear away what it left behind.
    Finish,
    /// The event did not apply: nothing changes.
    Idle,
}

impl Action {
    /// Whether the action invokes the agent, and so needs one of the slots
    /// that bound how many invocations run at a time.
    pub open spec fn spec_needs_permit(&self) -> bool {
        *self is RunTriage || *self is RunConsult || *self is RunAgent || *self is RunReview
    }

    /// Whether the action invokes the agent.
    #[verifier::when_used_as_spec(spec_needs_permit)]
    pub fn needs_permit(&self) -> (r: bool)
        ensures
            r == self.spec_needs_permit(),
    {
        matches!(self, Action::RunTriage | Action::RunConsult | Action::RunAgent | Action::RunReview)
    }
}

/// The mathematical content of a [`Pipeline`].
pub struct PipelineView {
    pub issue: ForgeIssueView,
    pub docker_required: bool,
    pub max_retries: u32,
    pub stage: Stage,
    pub analysis: Option<AnalysisResultView>,
    pub feedback: Option<ReviewResultView>,
    pub attempts: nat,
    pub commits: u32,
    pub question: Option<Seq<char>>,
    pub outcome: Option<ExecuteResultView>,
}

/// The reason entered for an agent that made no commit.
pub open spec fn no_commits() -> Seq<char> {
    "no commits produced"@
}

/// The reason entered for a rebase that met a conflict.
pub open spec fn rebase_conflict() -> Seq<char> {
    "rebase conflict"@
}

/// The reason entered for tests that failed.
pub open spec fn tests_failed() -> Seq<char> {
    "tests failed after rebase"@
}

/// The reason entered when the review has rejected the last attempt that
/// the budget allows.
pub open spec fn retries_exhausted(attempts: nat) -> Seq<char> {
    "review rejected after "@ + decimal(attempts) + " attempts"@
}

impl PipelineView {
    /// A machine that waits for the triage of `issue`.
    pub open spec fn fresh(issue: ForgeIssueView, docker_required: bool, max_retries: u32) -> Self {
        PipelineView {
            issue,
            docker_required,
            max_retries,
            stage: Stage::Triage,
            analysis: None,
            feedback: None,
            attempts: 0,
            commits: 0,
            question: None,
            outcome: None,
        }
    }

    /// Whether another attempt may follow a rejected one: the budget is one
    /// attempt more than the retries allowed.
    pub open spec fn attempts_remain(self) -> bool {
        self.attempts <= self.max_retries
    }

    /// The machine at its end: how the work ended is kept, and entered in the
    /// records at `now`.
    pub open spec fn finish(
        self,
        result: ExecuteResultView,
        records: Seq<IssueStateView>,
        now: Timestamp,
    ) -> (PipelineView, Action, Seq<IssueStateView>) {
        (
            PipelineView { stage: Stage::Done, outcome: Some(result), ..self },
            Action::Finish,
            spec_report(records, self.issue.full_repo(), self.issue.number, result, now),
        )
    }

    /// The machine at the first attempt to implement `plan`: the task is
    /// entered as executing, on its branch.
    pub open spec fn begin(self, plan: AnalysisResultView, records: Seq<IssueStateView>) -> (
        PipelineView,
        Action,
        Seq<IssueStateView>,
    ) {
        (
            PipelineView { stage: Stage::Workspace, analysis: Some(plan), attempts: 1, ..self },
            Action::PrepareWorkspace,
            with_branch(
                with_status(
                    records,
                    self.issue.full_repo(),
                    self.issue.number,
                    self.issue.title,
                    IssueStatus::Executing,
                ),
                self.issue.full_repo(),
                self.issue.number,
                self.issue.branch_name(),
            ),
        )
    }

    /// The machine and the records after `event`, and the action that follows.
    ///
    /// A sufficient plan is implemented, an insufficient one goes to the
    /// consultation first, which settles it or leaves a question for a human.
    /// An attempt runs through sandbox, agent, commit count, rebase, tests and
    /// review. A failed stage, an agent that made no commit and a conflict
    /// end the task as an error, failed tests as a test failure. A review
    /// that could not run counts as an approval. A rejection starts the next
    /// attempt with the verdict as feedback while attempts remain, and ends
    /// the task as an error when none does. An event that the stage does not
    /// wait for changes nothing.
    pub open spec fn step(self, event: EventView, records: Seq<IssueStateView>, now: Timestamp) -> (
        PipelineView,
        Action,
        Seq<IssueStateView>,
    ) {
        match (self.stage, event) {
            (Stage::Triage, EventView::Triaged(plan)) => if plan.is_sufficient() {
                self.begin(plan, records)
            } else {
                (
                    PipelineView { stage: Stage::Consult, analysis: Some(plan), ..self },
                    Action::RunConsult,
                    records,
                )
            },
            (Stage::Triage, EventView::TriageFailed(m)) => self.finish(
                ExecuteResultView::Error(m),
                records,
                now,
            ),
            (Stage::Consult, EventView::Consulted(ConsultationOutcomeView::Resolved(plan))) => self.begin(
                plan,
                records,
            ),
            (
                Stage::Consult,
                EventView::Consulted(ConsultationOutcomeView::NeedsClarification(q)),
            ) => (
                PipelineView { stage: Stage::Paused, question: Some(q), ..self },
                Action::AskHuman,
                with_status(
                    records,
                    self.issue.full_repo(),
                    self.issue.number,
                    self.issue.title,
                    IssueStatus::NeedsClarification,
                ),
            ),
            (Stage::Consult, EventView::ConsultFailed(m)) => self.finish(
                ExecuteResultView::Error(m),
                records,
                now,
            ),
            (Stage::Workspace, EventView::WorkspaceReady) => if self.docker_required {
                (PipelineView { stage: Stage::Docker, ..self }, Action::CheckDocker, records)
            } else {
                (PipelineView { stage: Stage::Implement, ..self }, Action::RunAgent, records)
            },
            (Stage::Workspace, EventView::WorkspaceFailed(m)) => self.finish(
                ExecuteResultView::Error(m),
                records,
                now,
            ),
            (Stage::Docker, EventView::DockerRunning) => (
                PipelineView { stage: Stage::Implement, ..self },
                Action::RunAgent,
                records,
            ),
            (Stage::Docker, EventView::DockerDown(m)) => self.finish(
                ExecuteResultView::Error("Docker not running: "@ + m),
                records,
                now,
            ),
            (Stage::Implement, EventView::AgentFinished) => (
                PipelineView { stage: Stage::Commits, ..self },
                Action::CountCommits,
                records,
            ),
            (Stage::Implement, EventView::AgentFailed(m)) => self.finish(
                ExecuteResultView::Error(m),
                records,
                now,
            ),
            (Stage::Commits, EventView::CommitsCounted(n)) => if n == 0 {
                self.finish(ExecuteResultView::Unclear(no_commits()), records, now)
            } else {
                (PipelineView { stage: Stage::Rebase, commits: n, ..self }, Action::Rebase, records)
            },
            (Stage::Commits, EventView::CommitCountFailed) => self.finish(
                ExecuteResultView::Unclear(no_commits()),
                records,
                now,
            ),
            (Stage::Rebase, EventView::RebaseClean) => (
                PipelineView { stage: Stage::Test, ..self },
                Action::RunTests,
                records,
            ),
            (Stage::Rebase, EventView::RebaseConflict(_)) => self.finish(
                ExecuteResultView::Error(rebase_conflict()),
                records,
                now,
            ),
            (Stage::Test, EventView::TestsPassed) => (
                PipelineView { stage: Stage::Review, ..self },
                Action::RunReview,
                records,
            ),
            (Stage::Test, EventView::TestsFailed) => self.finish(
                ExecuteResultView::TestFailure { commits: self.commits, output: tests_failed() },
                records,
                now,
            ),
            (Stage::Test, EventView::TestsErrored(m)) => self.finish(
                ExecuteResultView::TestFailure {
                    commits: self.commits,
                    output: "Test execution error: "@ + m,
                },
                records,
                now,
            ),
            (Stage::Review, EventView::Reviewed(verdict)) => if verdict.approved {
                self.finish(ExecuteResultView::Success { commits: self.commits }, records, now)
            } else if self.attempts_remain() {
                (
                    PipelineView {
                        stage: Stage::Workspace,
                        feedback: Some(verdict),
                        attempts: self.attempts + 1,
                        ..self
                    },
                    Action::PrepareWorkspace,
                    records,
                )
            } else {
                self.finish(
                    ExecuteResultView::Error(retries_exhausted(self.attempts)),
                    records,
                    now,
                )
            },
            (Stage::Review, EventView::ReviewFailed(_)) => self.finish(
                ExecuteResultView::Success { commits: self.commits },
                records,
                now,
            ),
            _ => (self, Action::Idle, records),
        }
    }
}

/// The records after the work on `issue` began at `now`: the task is entered
/// as being triaged.
pub open spec fn spec_start(issue: ForgeIssueView, records: Seq<IssueStateView>, now: Timestamp) -> Seq<
    IssueStateView,
> {
    with_started(
        with_status(records, issue.full_repo(), issue.number, issue.title, IssueStatus::Triaging),
        issue.full_repo(),
        issue.number,
        now,
    )
}

/// The stage machine of one task.
#[derive(Debug)]
pub struct Pipeline {
    issue: ForgeIssue,
    docker_required: bool,
    max_retries: u32,
    stage: Stage,
    analysis: Option<AnalysisResult>,
    feedback: Option<ReviewResult>,
    attempts: u64,
    commits: u32,
    question: Option<String>,
    outcome: Option<ExecuteResult>,
}

impl View for Pipeline {
    type V = PipelineView;

    closed spec fn view(&self) -> PipelineView {
        PipelineView {
            issue: self.issue@,
            docker_required: self.docker_required,
            max_retries: self.max_retries,
            stage: self.stage,
            analysis: self.analysis.deep_view(),
            feedback: self.feedback.deep_view(),
            attempts: self.attempts as nat,
            commits: self.commits,
            question: self.question.deep_view(),
            outcome: self.outcome.deep_view(),
        }
    }
}

impl Pipeline {
    #[verifier::type_invariant]
    spec fn bounded(&self) -> bool {
        self.attempts <= self.max_retries + 1
    }

    /// Begins the work on `issue` at `now`: the task is entered as being
    /// triaged, and the triage stage is the first action.
    pub fn start(
        issue: ForgeIssue,
        docker_required: bool,
        max_retries: u32,
        tracker: &mut StateTracker,
        now: Timestamp,
    ) -> (r: (Pipeline, Action))
        ensures
            r.0@ == PipelineView::fresh(issue@, docker_required, max_retries),
            r.1 == Action::RunTriage,
            final(tracker)@ == spec_start(issue@, old(tracker)@, now),
    {
        let repo = issue.full_repo();
        tracker.set_status(repo.as_str(), issue.number, issue.title.as_str(), IssueStatus::Triaging);
        tracker.set_started_at(repo.as_str(), issue.number, now);
        let pipeline = Pipeline {
            issue,
            docker_required,
            max_retries,
            stage: Stage::Triage,
            analysis: None,
            feedback: None,
            attempts: 0,
            commits: 0,
            question: None,
            outcome: None,
        };
        (pipeline, Action::RunTriage)
    }

    /// The task.
    pub fn issue(&self) -> (r: &ForgeIssue)
        ensures
            r@ == self@.issue,
    {
        &self.issue
    }

    /// What the machine waits for.
    pub fn stage(&self) -> (r: Stage)
        ensures
            r == self@.stage,
    {
        self.stage
    }

    /// How many attempts to implement the task were begun.
    pub fn attempts(&self) -> (r: u64)
        ensures
            r == self@.attempts,
            r <= self@.max_retries + 1,
    {
        proof {
            use_type_invariant(self);
        }
        self.attempts
    }

    /// The plan at hand.
    pub fn analysis(&self) -> (r: Option<&AnalysisResult>)
        ensures
            r.deep_view() == self@.analysis,
    {
        self.analysis.as_ref()
    }

    /// The verdict that rejected the last attempt.
    pub fn feedback(&self) -> (r: Option<&ReviewResult>)
        ensures
            r.deep_view() == self@.feedback,
    {
        self.feedback.as_ref()
    }

    /// The question for a human.
    pub fn question(&self) -> (r: Option<&String>)
        ensures
            r.deep_view() == self@.question,
    {
        self.question.as_ref()
    }

    /// How the work ended.
    pub fn outcome(&self) -> (r: Option<&ExecuteResult>)
        ensures
            r.deep_view() == self@.outcome,
    {
        self.outcome.as_ref()
    }

    /// The tier that implements the plan at hand: the one that `models` gives
    /// for its complexity, and for `Medium` where there is no plan.
    pub fn model(&self, models: &ModelSettings) -> (r: &'static str)
        ensures
            r@ == match self@.analysis {
                Some(plan) => plan.complexity().spec_select_model(models),
                None => Complexity::Medium.spec_select_model(models),
            },
    {
        match &self.analysis {
            Some(plan) => plan.complexity().select_model(models),
            None => Complexity::Medium.select_model(models),
        }
    }

    /// Ends the task: how the work ended is kept, and entered at `now`.
    fn finish(&mut self, result: ExecuteResult, tracker: &mut StateTracker, now: Timestamp) -> (action:
        Action)
        ensures
            (final(self)@, action, final(tracker)@) == old(self)@.finish(
                result@,
                old(tracker)@,
                now,
            ),
    {
        proof {
            use_type_invariant(&*self);
        }
        let repo = self.issue.full_repo();
        report(repo.as_str(), self.issue.number, &result, tracker, now);
        self.stage = Stage::Done;
        self.outcome = Some(result);
        Action::Finish
    }

    /// Begins the first attempt to implement `plan`.
    fn begin(&mut self, plan: AnalysisResult, tracker: &mut StateTracker) -> (action: Action)
        ensures
            (final(self)@, action, final(tracker)@) == old(self)@.begin(plan@, old(tracker)@),
    {
        proof {
            use_type_invariant(&*self);
        }
        let repo = self.issue.full_repo();
        let branch = self.issue.branch_name();
        tracker.set_status(
            repo.as_str(),
            self.issue.number,
            self.issue.title.as_str(),
            IssueStatus::Executing,
        );
        tracker.set_branch(repo.as_str(), self.issue.number, branch.as_str());
        self.stage = Stage::Workspace;
        self.analysis = Some(plan);
        self.attempts = 1;
        Action::PrepareWorkspace
    }

    /// Moves the machine to `stage`.
    fn go(&mut self, stage: Stage)
        ensures
            final(self)@ == (PipelineView { stage, ..old(self)@ }),
    {
        proof {
            use_type_invariant(&*self);
        }
        self.stage = stage;
    }

    /// Takes `event` as the report of how the last action went, enters at
    /// `now` what it means for the task, and answers with the next action.
    pub fn step(&mut self, event: Event, tracker: &mut StateTracker, now: Timestamp) -> (action:
        Action)
        ensures
            (final(self)@, action, final(tracker)@) == old(self)@.step(event@, old(tracker)@, now),
    {
        proof {
            use_type_invariant(&*self);
        }
        match (self.stage, event) {
            (Stage::Triage, Event::Triaged(plan)) => {
                if plan.is_sufficient() {
                    self.begin(plan, tracker)
                } else {
                    self.stage = Stage::Consult;
                    self.analysis = Some(plan);
                    Action::RunConsult
                }
            },
            (Stage::Triage, Event::TriageFailed(m)) => self.finish(
                ExecuteResult::Error(m),
                tracker,
                now,
            ),
            (Stage::Consult, Event::Consulted(ConsultationOutcome::Resolved(plan))) => self.begin(
                plan,
                tracker,
            ),
            (Stage::Consult, Event::Consulted(ConsultationOutcome::NeedsClarification(q))) => {
                let repo = self.issue.full_repo();
                tracker.set_status(
                    repo.as_str(),
                    self.issue.number,
                    self.issue.title.as_str(),
                    IssueStatus::NeedsClarification,
                );
                self.stage = Stage::Paused;
                self.question = Some(q);
                Action::AskHuman
            },
            (Stage::Consult, Event::ConsultFailed(m)) => self.finish(
                ExecuteResult::Error(m),
                tracker,
                now,
            ),
            (Stage::Workspace, Event::WorkspaceReady) => {
                if self.docker_required {
                    self.go(Stage::Docker);
                    Action::CheckDocker
                } else {
                    self.go(Stage::Implement);
                    Action::RunAgent
                }
            },
            (Stage::Workspace, Event::WorkspaceFailed(m)) => self.finish(
                ExecuteResult::Error(m),
                tracker,
                now,
            ),
            (Stage::Docker, Event::DockerRunning) => {
                self.go(Stage::Implement);
                Action::RunAgent
            },
            (Stage::Docker, Event::DockerDown(m)) => {
                let mut reason = String::from_str("Docker not running: ");
                reason.append(m.as_str());
                self.finish(ExecuteResult::Error(reason), tracker, now)
            },
            (Stage::Implement, Event::AgentFinished) => {
                self.go(Stage::Commits);
                Action::CountCommits
            },
            (Stage::Implement, Event::AgentFailed(m)) => self.finish(
                ExecuteResult::Error(m),
                tracker,
                now,
            ),
            (Stage::Commits, Event::CommitsCounted(n)) => {
                if n == 0 {
                    self.finish(
                        ExecuteResult::Unclear(String::from_str("no commits produced")),
                        tracker,
                        now,
                    )
                } else {
                    self.stage = Stage::Rebase;
                    self.commits = n;
                    Action::Rebase
                }
            },
            (Stage::Commits, Event::CommitCountFailed) => self.finish(
                ExecuteResult::Unclear(String::from_str("no commits produced")),
                tracker,
                now,
            ),
            (Stage::Rebase, Event::RebaseClean) => {
                self.go(Stage::Test);
                Action::RunTests
            },
            (Stage::Rebase, Event::RebaseConflict(_)) => self.finish(
                ExecuteResult::Error(String::from_str("rebase conflict")),
                tracker,
                now,
            ),
            (Stage::Test, Event::TestsPassed) => {
                self.go(Stage::Review);
                Action::RunReview
            },
            (Stage::Test, Event::TestsFailed) => {
                let result = ExecuteResult::TestFailure {
                    commits: self.commits,
                    output: String::from_str("tests failed after rebase"),
                };
                self.finish(result, tracker, now)
            },
            (Stage::Test, Event::TestsErrored(m)) => {
                let mut output = String::from_str("Test execution error: ");
                output.append(m.as_str());
                let result = ExecuteResult::TestFailure { commits: self.commits, output };
                self.finish(result, tracker, now)
            },
            (Stage::Review, Event::Reviewed(verdict)) => {
                if verdict.approved {
                    let result = ExecuteResult::Success { commits: self.commits };
                    self.finish(result, tracker, now)
                } else if self.attempts <= self.max_retries as u64 {
                    self.stage = Stage::Workspace;
                    self.feedback = Some(verdict);
                    self.attempts = self.attempts + 1;
                    Action::PrepareWorkspace
                } else {
                    let mut reason = String::from_str("review rejected after ");
                    reason.append(u64_to_string(self.attempts).as_str());
                    reason.append(" attempts");
                    self.finish(ExecuteResult::Error(reason), tracker, now)
                }
            },
            (Stage::Review, Event::ReviewFailed(_)) => {
                let result = ExecuteResult::Success { commits: self.commits };
                self.finish(result, tracker, now)
            },
            _ => Action::Idle,
        }
    }

    /// Takes `event` as [`Pipeline::step`] does, at the time of the call.
    pub fn advance(&mut self, event: Event, tracker: &mut StateTracker) -> (action: Action)
        ensures
            exists|now: Timestamp|
                (final(self)@, action, final(tracker)@) == old(self)@.step(
                    event@,
                    old(tracker)@,
                    now,
                ),
    {
        let now = current_time();
        self.step(event, tracker, now)
    }
}

/// Entering how the work on a task ended touches the record of no other task.
pub proof fn lemma_report_elsewhere(
    records: Seq<IssueStateView>,
    repo: Seq<char>,
    number: u64,
    result: ExecuteResultView,
    now: Timestamp,
)
    requires
        distinct_keys(records),
    ensures
        distinct_keys(spec_report(records, repo, number, result, now)),
        same_elsewhere(records, spec_report(records, repo, number, result, now), repo, number),
{
    match result {
        ExecuteResultView::Success { commits } => {
            lemma_amend_elsewhere(
                records,
                repo,
                number,
                |r: IssueStateView|
                    IssueStateView { status: IssueStatus::Success, completed_at: Some(now), ..r },
            );
        },
        ExecuteResultView::TestFailure { commits, output } => {
            lemma_amend_elsewhere(
                records,
                repo,
                number,
                |r: IssueStateView|
                    IssueStateView {
                        status: IssueStatus::TestFailure,
                        error: Some(output),
                        completed_at: Some(now),
                        ..r
                    },
            );
        },
        ExecuteResultView::Unclear(reason) => {
            lemma_amend_elsewhere(
                records,
                repo,
                number,
                |r: IssueStateView|
                    IssueStateView {
                        status: IssueStatus::Error,
                        error: Some(reason),
                        completed_at: Some(now),
                        ..r
                    },
            );
        },
        ExecuteResultView::Error(reason) => {
            lemma_amend_elsewhere(
                records,
                repo,
                number,
                |r: IssueStateView|
                    IssueStateView {
                        status: IssueStatus::Error,
                        error: Some(reason),
                        completed_at: Some(now),
                        ..r
                    },
            );
        },
    }
}

/// A step of the machine of one task touches the record of no other task,
/// and never makes the machine one of another task.
pub proof fn lemma_step_elsewhere(
    p: PipelineView,
    event: EventView,
    records: Seq<IssueStateView>,
    now: Timestamp,
)
    requires
        distinct_keys(records),
    ensures
        distinct_keys(p.step(event, records, now).2),
        same_elsewhere(records, p.step(event, records, now).2, p.issue.full_repo(), p.issue.number),
        p.step(event, records, now).0.issue == p.issue,
        p.step(event, records, now).0.max_retries == p.max_retries,
{
    let repo = p.issue.full_repo();
    let number = p.issue.number;
    let after = p.step(event, records, now).2;
    if after == records {
    } else if exists|result: ExecuteResultView| after == spec_report(records, repo, number, result, now) {
        let result = choose|result: ExecuteResultView|
            after == spec_report(records, repo, number, result, now);
        lemma_report_elsewhere(records, repo, number, result, now);
    } else if after == with_status(
        records,
        repo,
        number,
        p.issue.title,
        IssueStatus::NeedsClarification,
    ) {
        lemma_with_status(records, repo, number, p.issue.title, IssueStatus::NeedsClarification);
    } else {
        let executing = with_status(records, repo, number, p.issue.title, IssueStatus::Executing);
        assert(after == with_branch(executing, repo, number, p.issue.branch_name()));
        lemma_with_status(records, repo, number, p.issue.title, IssueStatus::Executing);
        lemma_amend_elsewhere(
            executing,
            repo,
            number,
            |r: IssueStateView| IssueStateView { branch: Some(p.issue.branch_name()), ..r },
        );
        lemma_same_elsewhere_trans(records, executing, after, repo, number);
    }
}

/// A machine that rests, at its end or with a question for a human, takes no
/// event: it stays as it is, and so do the records.
pub proof fn lemma_settled_ignores(
    p: PipelineView,
    event: EventView,
    records: Seq<IssueStateView>,
    now: Timestamp,
)
    requires
        p.stage is Done || p.stage is Paused,
    ensures
        p.step(event, records, now) == (p, Action::Idle, records),
{
}

/// No step takes the attempts beyond the budget of one more than the retries
/// allowed.
pub proof fn lemma_attempts_bounded(
    p: PipelineView,
    event: EventView,
    records: Seq<IssueStateView>,
    now: Timestamp,
)
    requires
        p.attempts <= p.max_retries + 1,
    ensures
        p.step(event, records, now).0.attempts <= p.max_retries + 1,
{
}

/// Whether the state store holds for the task of the machine the status
/// that belongs to the stage of the machine: triaging up to the
/// consultation, executing during an attempt, waiting for a human while the
/// machine is paused, and at the end the status of how the work ended,
/// with the reason of every end that is no success.
pub open spec fn agrees(p: PipelineView, records: Seq<IssueStateView>) -> bool {
    match lookup(records, p.issue.full_repo(), p.issue.number) {
        None => false,
        Some(record) => match p.stage {
            Stage::Triage | Stage::Consult => record.status is Triaging,
            Stage::Paused => record.status is NeedsClarification,
            Stage::Done => match p.outcome {
                Some(ExecuteResultView::Success { .. }) => record.status is Success,
                Some(ExecuteResultView::TestFailure { commits, output }) => {
                    record.status is TestFailure && record.error == Some(output)
                },
                Some(ExecuteResultView::Unclear(reason)) => {
                    record.status is Error && record.error == Some(reason)
                },
                Some(ExecuteResultView::Error(reason)) => {
                    record.status is Error && record.error == Some(reason)
                },
                None => false,
            },
            _ => record.status is Executing,
        },
    }
}

/// When the work on a task begins, the state store agrees with its machine.
pub proof fn lemma_start_agrees(
    issue: ForgeIssueView,
    docker_required: bool,
    max_retries: u32,
    records: Seq<IssueStateView>,
    now: Timestamp,
)
    requires
        distinct_keys(records),
    ensures
        distinct_keys(spec_start(issue, records, now)),
        agrees(
            PipelineView::fresh(issue, docker_required, max_retries),
            spec_start(issue, records, now),
        ),
{
    let repo = issue.full_repo();
    let triaging = with_status(records, repo, issue.number, issue.title, IssueStatus::Triaging);
    lemma_with_status(records, repo, issue.number, issue.title, IssueStatus::Triaging);
    lemma_amend(
        triaging,
        repo,
        issue.number,
        |r: IssueStateView| IssueStateView { started_at: Some(now), ..r },
    );
}

/// Every step keeps the state store in agreement with the machine: each
/// change of stage that changes the status is entered with the step that
/// makes it. So a task whose machine stopped in the middle is found as
/// triaging or executing, and a machine at rest has left a terminal status,
/// with its reason where the work did not succeed.
pub proof fn lemma_step_agrees(
    p: PipelineView,
    event: EventView,
    records: Seq<IssueStateView>,
    now: Timestamp,
)
    requires
        distinct_keys(records),
        agrees(p, records),
    ensures
        distinct_keys(p.step(event, records, now).2),
        agrees(p.step(event, records, now).0, p.step(event, records, now).2),
        p.step(event, records, now).0.stage is Done || p.step(event, records, now).0.stage
            is Paused ==> lookup(
            p.step(event, records, now).2,
            p.issue.full_repo(),
            p.issue.number,
        ).unwrap().status.is_terminal(),
{
    let repo = p.issue.full_repo();
    let number = p.issue.number;
    let (q, action, after) = p.step(event, records, now);
    lemma_step_elsewhere(p, event, records, now);
    if after == records {
    } else if q.stage is Done {
        let result = q.outcome.unwrap();
        assert(after == spec_report(records, repo, number, result, now));
        match result {
            ExecuteResultView::Success { commits } => {
                lemma_amend(
                    records,
                    repo,
                    number,
                    |r: IssueStateView|
                        IssueStateView {
                            status: IssueStatus::Success,
                            completed_at: Some(now),
                            ..r
                        },
                );
            },
            ExecuteResultView::TestFailure { commits, output } => {
                lemma_amend(
                    records,
                    repo,
                    number,
                    |r: IssueStateView|
                        IssueStateView {
                            status: IssueStatus::TestFailure,
                            error: Some(output),
                            completed_at: Some(now),
                            ..r
                        },
                );
            },
            ExecuteResultView::Unclear(reason) => {
                lemma_amend(
                    records,
                    repo,
                    number,
                    |r: IssueStateView|
                        IssueStateView {
                            status: IssueStatus::Error,
                            error: Some(reason),
                            completed_at: Some(now),
                            ..r
                        },
                );
            },
            ExecuteResultView::Error(reason) => {
                lemma_amend(
                    records,
                    repo,
                    number,
                    |r: IssueStateView|
                        IssueStateView {
                            status: IssueStatus::Error,
                            error: Some(reason),
                            completed_at: Some(now),
                            ..r
                        },
                );
            },
        }
    } else if q.stage is Paused {
        lemma_with_status(records, repo, number, p.issue.title, IssueStatus::NeedsClarification);
    } else {
        let executing = with_status(records, repo, number, p.issue.title, IssueStatus::Executing);
        lemma_with_status(records, repo, number, p.issue.title, IssueStatus::Executing);
        lemma_amend(
            executing,
            repo,
            number,
            |r: IssueStateView| IssueStateView { branch: Some(p.issue.branch_name()), ..r },
        );
    }
}

/// How many steps a machine can still take at most.
pub open spec fn steps_left(p: PipelineView) -> nat {
    let attempts_left = (p.max_retries + 1 - p.attempts) as nat;
    match p.stage {
        Stage::Triage => ((p.max_retries + 1) * 8 + 2) as nat,
        Stage::Consult => ((p.max_retries + 1) * 8 + 1) as nat,
        Stage::Workspace => attempts_left * 8 + 7,
        Stage::Docker => attempts_left * 8 + 6,
        Stage::Implement => attempts_left * 8 + 5,
        Stage::Commits => attempts_left * 8 + 4,
        Stage::Rebase => attempts_left * 8 + 3,
        Stage::Test => attempts_left * 8 + 2,
        Stage::Review => attempts_left * 8 + 1,
        Stage::Paused => 0,
        Stage::Done => 0,
    }
}

/// Every step that does anything brings the machine nearer to its rest: a
/// task reaches its end, or its question for a human, after a bounded number
/// of steps, whatever the events are.
pub proof fn lemma_step_progress(
    p: PipelineView,
    event: EventView,
    records: Seq<IssueStateView>,
    now: Timestamp,
)
    requires
        p.attempts <= p.max_retries + 1,
        p.stage is Triage || p.stage is Consult || p.attempts >= 1,
    ensures
        p.step(event, records, now).1 != Action::Idle ==> steps_left(
            p.step(event, records, now).0,
        ) < steps_left(p),
        p.step(event, records, now).1 == Action::Idle ==> p.step(event, records, now).0 == p,
        steps_left(p) == 0 <==> p.stage is Done || p.stage is Paused,
{
}

/// The events of one attempt that the review rejects: the sandbox is ready,
/// the containers run where they are asked for, the agent ends and has made
/// `commits` commits, the rebase is clean, the tests pass, and the review
/// answers with `verdict`.
pub open spec fn rejected_attempt(docker_required: bool, commits: u32, verdict: ReviewResultView) -> Seq<
    EventView,
> {
    let head = if docker_required {
        seq![EventView::WorkspaceReady, EventView::DockerRunning]
    } else {
        seq![EventView::WorkspaceReady]
    };
    head + seq![
        EventView::AgentFinished,
        EventView::CommitsCounted(commits),
        EventView::RebaseClean,
        EventView::TestsPassed,
        EventView::Reviewed(verdict),
    ]
}

/// The machine and the records after the steps for `events`, all at `now`.
pub open spec fn run(
    p: PipelineView,
    records: Seq<IssueStateView>,
    events: Seq<EventView>,
    now: Timestamp,
) -> (PipelineView, Seq<IssueStateView>)
    decreases events.len(),
{
    if events.len() == 0 {
        (p, records)
    } else {
        let (q, rs) = run(p, records, events.drop_last(), now);
        let (next, _, after) = q.step(events.last(), rs, now);
        (next, after)
    }
}

/// The machine and the records after one attempt for each of `verdicts`, each
/// rejected with its verdict.
pub open spec fn run_rejected(
    p: PipelineView,
    records: Seq<IssueStateView>,
    commits: u32,
    verdicts: Seq<ReviewResultView>,
    now: Timestamp,
) -> (PipelineView, Seq<IssueStateView>)
    decreases verdicts.len(),
{
    if verdicts.len() == 0 {
        (p, records)
    } else {
        let (q, rs) = run_rejected(p, records, commits, verdicts.drop_last(), now);
        run(q, rs, rejected_attempt(q.docker_required, commits, verdicts.last()), now)
    }
}

/// The events of one rejected attempt lead to the review and through it, and
/// change nothing on the way there.
proof fn lemma_one_rejection(
    p: PipelineView,
    records: Seq<IssueStateView>,
    commits: u32,
    verdict: ReviewResultView,
    now: Timestamp,
)
    requires
        p.stage is Workspace,
        commits > 0,
    ensures
        run(p, records, rejected_attempt(p.docker_required, commits, verdict), now) == ({
            let reviewing = PipelineView { stage: Stage::Review, commits, ..p };
            let (q, _, rs) = reviewing.step(EventView::Reviewed(verdict), records, now);
            (q, rs)
        }),
{
    let events = rejected_attempt(p.docker_required, commits, verdict);
    let e1 = events.take(1);
    let e2 = events.take(2);
    let e3 = events.take(3);
    let e4 = events.take(4);
    let e5 = events.take(5);
    assert(e1.drop_last() =~= Seq::<EventView>::empty());
    assert(e2.drop_last() =~= e1);
    assert(e3.drop_last() =~= e2);
    assert(e4.drop_last() =~= e3);
    assert(e5.drop_last() =~= e4);
    assert(run(p, records, e1.drop_last(), now) == (p, records));
    if p.docker_required {
        let e6 = events.take(6);
        assert(e6.drop_last() =~= e5);
        assert(events.drop_last() =~= e6);
        assert(run(p, records, e1, now) == (PipelineView { stage: Stage::Docker, ..p }, records));
        assert(run(p, records, e2, now) == (PipelineView { stage: Stage::Implement, ..p }, records));
        assert(run(p, records, e3, now) == (PipelineView { stage: Stage::Commits, ..p }, records));
        assert(run(p, records, e4, now) == (
            PipelineView { stage: Stage::Rebase, commits, ..p },
            records,
        ));
        assert(run(p, records, e5, now) == (
            PipelineView { stage: Stage::Test, commits, ..p },
            records,
        ));
        assert(run(p, records, e6, now) == (
            PipelineView { stage: Stage::Review, commits, ..p },
            records,
        ));
    } else {
        assert(events.drop_last() =~= e5);
        assert(run(p, records, e1, now) == (PipelineView { stage: Stage::Implement, ..p }, records));
        assert(run(p, records, e2, now) == (PipelineView { stage: Stage::Commits, ..p }, records));
        assert(run(p, records, e3, now) == (
            PipelineView { stage: Stage::Rebase, commits, ..p },
            records,
        ));
        assert(run(p, records, e4, now) == (
            PipelineView { stage: Stage::Test, commits, ..p },
            records,
        ));
        assert(run(p, records, e5, now) == (
            PipelineView { stage: Stage::Review, commits, ..p },
            records,
        ));
    }
}

/// With `max_retries` retries allowed, a task whose every attempt the review
/// rejects is implemented `max_retries + 1` times and no more. After each of
/// the first `max_retries` rejections the next attempt has begun, with the
/// verdict as its feedback, and the records are as they were. With the
/// rejection after that the task ends as an error that names the attempts
/// made, and nothing begins after that.
pub proof fn lemma_retry_budget(
    p: PipelineView,
    records: Seq<IssueStateView>,
    commits: u32,
    verdicts: Seq<ReviewResultView>,
    now: Timestamp,
)
    requires
        p.stage is Workspace,
        p.attempts == 1,
        commits > 0,
        0 < verdicts.len() <= p.max_retries + 1,
        forall|i: int| 0 <= i < verdicts.len() ==> !(#[trigger] verdicts[i]).approved,
    ensures
        verdicts.len() <= p.max_retries ==> run_rejected(p, records, commits, verdicts, now) == (
            PipelineView {
                stage: Stage::Workspace,
                attempts: verdicts.len() + 1,
                commits,
                feedback: Some(verdicts.last()),
                ..p
            },
            records,
        ),
        verdicts.len() == p.max_retries + 1 ==> run_rejected(p, records, commits, verdicts, now)
            == (
            PipelineView {
                stage: Stage::Done,
                attempts: (p.max_retries + 1) as nat,
                commits,
                feedback: if verdicts.len() == 1 {
                    p.feedback
                } else {
                    Some(verdicts[verdicts.len() - 2])
                },
                outcome: Some(
                    ExecuteResultView::Error(retries_exhausted((p.max_retries + 1) as nat)),
                ),
                ..p
            },
            with_error(
                records,
                p.issue.full_repo(),
                p.issue.number,
                retries_exhausted((p.max_retries + 1) as nat),
                now,
            ),
        ),
    decreases verdicts.len(),
{
    let earlier = verdicts.drop_last();
    if earlier.len() > 0 {
        lemma_retry_budget(p, records, commits, earlier, now);
        assert(earlier.last() == verdicts[verdicts.len() - 2]);
    }
    let (q, rs) = run_rejected(p, records, commits, earlier, now);
    assert(rs == records);
    assert(q.stage is Workspace && q.attempts == earlier.len() + 1);
    lemma_one_rejection(q, rs, commits, verdicts.last(), now);
}

} // verus!
