//! The persisted record of a task: its lifecycle status and what is known of
//! its progress.

use vstd::prelude::*;

verus! {

/// Where a task stands in its lifecycle.
#[derive(Debug, Clone, Copy, PartialEq, Eq, Structural)]
pub enum IssueStatus {
    /// Queued, not yet started.
    Pending,
    /// The triage stage is in progress.
    Triaging,
    /// Judged not actionable.
    Skipped,
    /// Blocked until a human answers a question.
    NeedsClarification,
    /// The implement stage is in progress.
    Executing,
    /// Fully integrated.
    Success,
    /// The tests failed after the rebase.
    TestFailure,
    /// An unrecoverable failure.
    Error,
    /// Handed over as a pull request.
    PrCreated,
}

impl IssueStatus {
    /// A terminal status is one that no automated run moves a task away from.
    pub open spec fn spec_is_terminal(&self) -> bool {
        ||| *self is PrCreated
        ||| *self is Skipped
        ||| *self is NeedsClarification
        ||| *self is Success
        ||| *self is Error
        ||| *self is TestFailure
    }

    /// A resumable status is one that a resume sweep picks up again.
    pub open spec fn spec_is_resumable(&self) -> bool {
        ||| *self is Triaging
        ||| *self is Executing
        ||| *self is Error
        ||| *self is TestFailure
    }

    /// Whether no automated run moves a task away from this status.
    #[verifier::when_used_as_spec(spec_is_terminal)]
    pub fn is_terminal(&self) -> (r: bool)
        ensures
            r == self.spec_is_terminal(),
    {
        matches!(
            self,
            IssueStatus::PrCreated | IssueStatus::Skipped | IssueStatus::NeedsClarification
                | IssueStatus::Success | IssueStatus::Error | IssueStatus::TestFailure
        )
    }

    /// Whether a resume sweep picks a task with this status up again.
    #[verifier::when_used_as_spec(spec_is_resumable)]
    pub fn is_resumable(&self) -> (r: bool)
        ensures
            r == self.spec_is_resumable(),
    {
        matches!(
            self,
            IssueStatus::Triaging | IssueStatus::Executing | IssueStatus::Error
                | IssueStatus::TestFailure
        )
    }
}

/// A point in time: whole seconds since the Unix epoch, and the nanoseconds
/// into that second.
#[derive(Debug, Clone, Copy, PartialEq, Eq, Structural)]
pub struct Timestamp {
    pub secs: i64,
    pub nanos: u32,
}

/// What the state store keeps of one task.
#[derive(Debug)]
pub struct IssueState {
    pub repo: String,
    pub number: u64,
    pub title: String,
    pub status: IssueStatus,
    pub branch: Option<String>,
    pub pr_number: Option<u64>,
    pub started_at: Option<Timestamp>,
    pub completed_at: Option<Timestamp>,
    pub error: Option<String>,
}

/// The mathematical content of an [`IssueState`].
pub struct IssueStateView {
    pub repo: Seq<char>,
    pub number: u64,
    pub title: Seq<char>,
    pub status: IssueStatus,
    pub branch: Option<Seq<char>>,
    pub pr_number: Option<u64>,
    pub started_at: Option<Timestamp>,
    pub completed_at: Option<Timestamp>,
    pub error: Option<Seq<char>>,
}

impl DeepView for IssueState {
    type V = IssueStateView;

    open spec fn deep_view(&self) -> IssueStateView {
        IssueStateView {
            repo: self.repo@,
            number: self.number,
            title: self.title@,
            status: self.status,
            branch: self.branch.deep_view(),
            pr_number: self.pr_number,
            started_at: self.started_at,
            completed_at: self.completed_at,
            error: self.error.deep_view(),
        }
    }
}

impl View for IssueState {
    type V = IssueStateView;

    open spec fn view(&self) -> IssueStateView {
        self.deep_view()
    }
}

impl Clone for IssueState {
    fn clone(&self) -> (r: Self)
        ensures
            r == *self,
    {
        IssueState {
            repo: self.repo.clone(),
            number: self.number,
            title: self.title.clone(),
            status: self.status,
            branch: self.branch.clone(),
            pr_number: self.pr_number,
            started_at: self.started_at,
            completed_at: self.completed_at,
            error: self.error.clone(),
        }
    }
}

impl IssueStateView {
    /// Whether this is the record of task `number` of `repo`.
    pub open spec fn has_key(self, repo: Seq<char>, number: u64) -> bool {
        self.repo == repo && self.number == number
    }

    /// The record of a task that has just been seen for the first time.
    pub open spec fn fresh(repo: Seq<char>, number: u64, title: Seq<char>) -> IssueStateView {
        IssueStateView {
            repo,
            number,
            title,
            status: IssueStatus::Pending,
            branch: None,
            pr_number: None,
            started_at: None,
            completed_at: None,
            error: None,
        }
    }
}

} // verus!
