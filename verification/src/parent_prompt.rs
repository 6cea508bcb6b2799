//! What the interactive parent agent is told when it is launched.

use crate::channel::{PendingClarification, PendingView};
use crate::clarification::{extract_questions, QuestionReading};
use crate::config::{Config, RepoConfig};
use crate::decimal::{decimal, u64_to_string};
use crate::lines::{join, join_with, lines};
use crate::tracker::StateSummary;
use vstd::prelude::*;

verus! {

/// What stands before the repositories in the system prompt.
pub const SYSTEM_HEAD: &'static str = r##"You are the parent agent for pfl-forge, a multi-agent task processor.
You manage task processing by running pfl-forge CLI commands via Bash.

## Available commands

- `pfl-forge run` — Process pending tasks (fetch, triage, execute, integrate)
  - `--repo <name>` — Process only a specific repo
  - `--resume` — Resume failed/interrupted tasks
  - `--dry-run` — Triage only, don't execute
- `pfl-forge status` — Show current processing state
- `pfl-forge clarifications` — List unanswered clarification questions
- `pfl-forge answer <number> "<text>"` — Answer a clarification question
  - `--repo <name>` — Specify repo (auto-detected if omitted)
- `pfl-forge clean` — Clean up worktrees for completed tasks
- `pfl-forge watch` — Daemon mode: poll and process periodically

## Clarification workflow

When a worker cannot resolve a task due to ambiguity, it creates a clarification request.
Use `pfl-forge clarifications` to see pending questions, then discuss with the user and
use `pfl-forge answer <number> "<text>"` to record the answer.
After answering, the task is reset to pending and will be re-processed on the next `pfl-forge run`.

## Configured repos

"##;

/// What stands behind the repositories in the system prompt.
pub const SYSTEM_TAIL: &'static str = r##"

## Guidelines

- Always check `pfl-forge status` before running to understand the current state.
- Present clarification questions to the user in a clear, conversational way.
- After the user answers, record it with `pfl-forge answer` and run processing again.
- Report results back to the user clearly."##;

/// The line of the system prompt that describes one repository.
pub open spec fn repo_line(repo: RepoConfig) -> Seq<char> {
    "- "@ + repo.name@ + ": path="@ + repo.path@ + ", test=`"@ + repo.test_command@ + "`, base="@
        + repo.base_branch@
}

/// The lines that describe `repos`, one for each.
pub open spec fn repo_lines(repos: Seq<RepoConfig>) -> Seq<Seq<char>> {
    Seq::new(repos.len(), |i: int| repo_line(repos[i]))
}

/// The system prompt of the parent agent: the commands it may run, the
/// repositories that are configured, and how it is to behave.
pub fn build_system_prompt(config: &Config) -> (r: String)
    ensures
        r@ == SYSTEM_HEAD@ + join(repo_lines(config.repos@), "\n"@) + SYSTEM_TAIL@,
{
    let mut described: Vec<String> = Vec::new();
    let n = config.repos.len();
    let mut i: usize = 0;
    assert(described.deep_view() == repo_lines(config.repos@).take(0));
    while i < n
        invariant
            n == config.repos@.len(),
            i <= n,
            described.deep_view() == repo_lines(config.repos@).take(i as int),
        decreases n - i,
    {
        let ghost before = described.deep_view();
        let repo = &config.repos[i];
        let mut line = String::from_str("- ");
        line.append(repo.name.as_str());
        line.append(": path=");
        line.append(repo.path.as_str());
        line.append(", test=`");
        line.append(repo.test_command.as_str());
        line.append("`, base=");
        line.append(repo.base_branch.as_str());
        described.push(line);
        assert(described.deep_view() == before.push(line@));
        assert(repo_lines(config.repos@).take(i + 1) == repo_lines(config.repos@).take(
            i as int,
        ).push(repo_line(config.repos@[i as int])));
        i = i + 1;
    }
    assert(repo_lines(config.repos@).take(n as int) == repo_lines(config.repos@));
    let mut out = String::from_str(SYSTEM_HEAD);
    out.append(join_with(&described, "\n").as_str());
    out.append(SYSTEM_TAIL);
    out
}

/// What the first message says of the open questions: of each its
/// repository and task, and the questions of its document.
pub open spec fn question_blocks(pending: Seq<PendingView>) -> Seq<char>
    decreases pending.len(),
{
    if pending.len() == 0 {
        Seq::empty()
    } else {
        let last = pending.last();
        question_blocks(pending.drop_last()) + "### "@ + last.repo_name + " #"@ + decimal(
            last.issue_number as nat,
        ) + "\n"@ + QuestionReading::all(lines(last.content)).questions + "\n"@
    }
}

/// The first message to the parent agent: the state of the store in one
/// line, and the open questions, or the hint that there are none.
pub open spec fn initial_message(summary: Seq<char>, pending: Seq<PendingView>) -> Seq<char> {
    "Current state: "@ + summary + "\n"@ + if pending.len() > 0 {
        "\nThere are pending clarification questions:\n\n"@ + question_blocks(pending)
            + "\nPlease present these questions to the user and help resolve them."@
    } else {
        "\nNo pending clarifications. You can run `pfl-forge run` to process new tasks or check status."@
    }
}

/// The first message to the parent agent.
pub fn build_initial_message(summary: &StateSummary, pending: &Vec<PendingClarification>) -> (r:
    String)
    ensures
        r@ == initial_message(summary.spec_to_text(), pending.deep_view()),
{
    let mut out = String::from_str("Current state: ");
    out.append(summary.to_text().as_str());
    out.append("\n");
    let ghost head = out@;
    let n = pending.len();
    if n > 0 {
        out.append("\nThere are pending clarification questions:\n\n");
        let ghost opened = out@;
        let mut i: usize = 0;
        assert(pending.deep_view().take(0) == Seq::<PendingView>::empty());
        assert(opened + Seq::<char>::empty() == opened);
        while i < n
            invariant
                n == pending@.len(),
                i <= n,
                out@ == opened + question_blocks(pending.deep_view().take(i as int)),
            decreases n - i,
        {
            assert(pending.deep_view().take(i + 1).drop_last() == pending.deep_view().take(
                i as int,
            ));
            assert(pending.deep_view().take(i + 1).last() == pending@[i as int]@);
            let ghost before = question_blocks(pending.deep_view().take(i as int));
            let c = &pending[i];
            out.append("### ");
            out.append(c.repo_name.as_str());
            out.append(" #");
            out.append(u64_to_string(c.issue_number).as_str());
            out.append("\n");
            out.append(extract_questions(c.content.as_str()).as_str());
            out.append("\n");
            assert(out@ == opened + (before + "### "@ + c@.repo_name + " #"@ + decimal(
                c@.issue_number as nat,
            ) + "\n"@ + QuestionReading::all(lines(c@.content)).questions + "\n"@));
            i = i + 1;
        }
        assert(pending.deep_view().take(n as int) == pending.deep_view());
        out.append("\nPlease present these questions to the user and help resolve them.");
        assert(out@ == head + ("\nThere are pending clarification questions:\n\n"@
            + question_blocks(pending.deep_view())
            + "\nPlease present these questions to the user and help resolve them."@));
    } else {
        out.append(
            "\nNo pending clarifications. You can run `pfl-forge run` to process new tasks or check status.",
        );
    }
    out
}

} // verus!
