//! How the work on a task ended, and how that is entered in the state store.

use crate::status::{IssueStateView, Timestamp};
use crate::tracker::{with_error, with_success, with_test_failure, StateTracker};
use vstd::prelude::*;

verus! {

/// How the work on a task ended.
#[derive(Debug)]
pub enum ExecuteResult {
    /// The change is integrated.
    Success { commits: u32 },
    /// The tests failed.
    TestFailure { commits: u32, output: String },
    /// The agent ran to its end and left nothing to integrate.
    Unclear(String),
    /// A stage failed.
    Error(String),
}

/// The mathematical content of an [`ExecuteResult`].
pub enum ExecuteResultView {
    Success { commits: u32 },
    TestFailure { commits: u32, output: Seq<char> },
    Unclear(Seq<char>),
    Error(Seq<char>),
}

impl DeepView for ExecuteResult {
    type V = ExecuteResultView;

    open spec fn deep_view(&self) -> ExecuteResultView {
        match self {
            ExecuteResult::Success { commits } => ExecuteResultView::Success { commits: *commits },
            ExecuteResult::TestFailure { commits, output } => ExecuteResultView::TestFailure {
                commits: *commits,
                output: output@,
            },
            ExecuteResult::Unclear(reason) => ExecuteResultView::Unclear(reason@),
            ExecuteResult::Error(reason) => ExecuteResultView::Error(reason@),
        }
    }
}

impl View for ExecuteResult {
    type V = ExecuteResultView;

    open spec fn view(&self) -> ExecuteResultView {
        self.deep_view()
    }
}

impl Clone for ExecuteResult {
    fn clone(&self) -> (r: Self)
        ensures
            r@ == self@,
    {
        match self {
            ExecuteResult::Success { commits } => ExecuteResult::Success { commits: *commits },
            ExecuteResult::TestFailure { commits, output } => ExecuteResult::TestFailure {
                commits: *commits,
                output: output.clone(),
            },
            ExecuteResult::Unclear(reason) => ExecuteResult::Unclear(reason.clone()),
            ExecuteResult::Error(reason) => ExecuteResult::Error(reason.clone()),
        }
    }
}

/// The records after the end of the work on task `number` of `repo` was
/// entered at `now`: a success as `Success`, failed tests as `TestFailure`
/// with their output as the reason, and the two other ends as `Error` with
/// their reason.
pub open spec fn spec_report(
    records: Seq<IssueStateView>,
    repo: Seq<char>,
    number: u64,
    result: ExecuteResultView,
    now: Timestamp,
) -> Seq<IssueStateView> {
    match result {
        ExecuteResultView::Success { commits } => with_success(records, repo, number, now),
        ExecuteResultView::TestFailure { commits, output } => with_test_failure(
            records,
            repo,
            number,
            output,
            now,
        ),
        ExecuteResultView::Unclear(reason) => with_error(records, repo, number, reason, now),
        ExecuteResultView::Error(reason) => with_error(records, repo, number, reason, now),
    }
}

/// Enters at `now` how the work on task `number` of `repo` ended.
pub fn report(
    repo: &str,
    number: u64,
    result: &ExecuteResult,
    tracker: &mut StateTracker,
    now: Timestamp,
)
    ensures
        final(tracker)@ == spec_report(old(tracker)@, repo@, number, result@, now),
{
    match result {
        ExecuteResult::Success { .. } => {
            tracker.set_success_at(repo, number, now);
        },
        ExecuteResult::TestFailure { output, .. } => {
            tracker.set_test_failure_at(repo, number, output.as_str(), now);
        },
        ExecuteResult::Unclear(reason) => {
            tracker.set_error_at(repo, number, reason.as_str(), now);
        },
        ExecuteResult::Error(reason) => {
            tracker.set_error_at(repo, number, reason.as_str(), now);
        },
    }
}

} // verus!
