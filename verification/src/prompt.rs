//! The words that each stage is given.

use crate::channel::{ClarificationContext, ClarificationContextView};
use crate::decimal::{decimal, u64_to_string};
use crate::lines::{join, join_with};
use crate::task::{ForgeIssue, ForgeIssueView};
use crate::triage::{AnalysisResult, AnalysisResultView, ReviewResult, ReviewResultView};
use vstd::prelude::*;
use vstd::string::StringSliceAdditionalSpecFns;
use vstd::utf8::{
    decode_utf8_split, encode_utf8, encode_utf8_decode_utf8, encode_utf8_valid_utf8,
    is_char_boundary, is_char_boundary_start_end_of_seq, valid_utf8, valid_utf8_split,
};

verus! {

/// What the triage stage is told about its work.
pub const ANALYZE: &'static str = r##"You are an analysis agent. Explore the codebase with Read, Glob and Grep and make a detailed implementation plan for the task.

Respond with ONLY a JSON object (no markdown, no explanation):
{
  "complexity": "<low|medium|high>",
  "plan": "<detailed implementation plan>",
  "relevant_files": ["<file paths that need modification>"],
  "implementation_steps": ["<ordered list of concrete implementation steps>"],
  "context": "<relevant codebase context: patterns, conventions, dependencies>"
}"##;

/// What the consultation is told about its work.
pub const CONSULT: &'static str = r##"You are a senior consulting agent. An analysis agent attempted to analyze the task but produced insufficient results. Explore the codebase yourself, fill in the gaps, and produce a complete implementation plan.

Respond with ONLY a JSON object (no markdown, no explanation).

If resolved:
{
  "status": "resolved",
  "complexity": "<low|medium|high>",
  "plan": "<detailed implementation plan>",
  "relevant_files": ["<file paths>"],
  "implementation_steps": ["<ordered steps>"],
  "context": "<codebase context>"
}

If needs clarification:
{
  "status": "needs_clarification",
  "message": "<what information is missing and what questions to ask>"
}"##;

/// What the implement stage is told about its work.
pub const IMPLEMENT: &'static str = r##"You are a coding agent. Implement the task according to the provided implementation plan. Run the tests, and commit your changes with a descriptive message. Do NOT push to remote. Just commit locally."##;

/// What the review stage is told about its work.
pub const REVIEW: &'static str = r##"You are a code review agent. Review the diff for the task: does it satisfy the requirements, follow the existing patterns and conventions, avoid obvious bugs and security issues, and keep to the plan?

Respond with ONLY a JSON object (no markdown, no explanation):
{
  "approved": <boolean - true if the code is acceptable>,
  "issues": ["<list of problems found, empty if approved>"],
  "suggestions": ["<list of improvement suggestions, can be empty>"]
}"##;

/// The longest diff, in bytes, that a review is shown.
pub const MAX_DIFF_LEN: usize = 50000;

/// The heading of a task: its repository and number, and its title.
pub open spec fn heading(issue: ForgeIssueView) -> Seq<char> {
    "Task "@ + issue.full_repo() + "#"@ + decimal(issue.number as nat) + ": "@ + issue.title
}

fn heading_of(issue: &ForgeIssue) -> (r: String)
    ensures
        r@ == heading(issue@),
{
    let mut out = String::from_str("Task ");
    out.append(issue.full_repo().as_str());
    out.append("#");
    out.append(u64_to_string(issue.number).as_str());
    out.append(": ");
    out.append(issue.title.as_str());
    out
}

/// What a resumed task is told of its earlier round.
pub open spec fn clarification_section(ctx: ClarificationContextView) -> Seq<char> {
    "\n\n## Previous Analysis (from prior analysis attempt)\nRelevant files: "@ + join(
        ctx.previous_analysis.relevant_files,
        ", "@,
    ) + "\nPlan: "@ + ctx.previous_analysis.plan + "\nContext: "@ + ctx.previous_analysis.context
        + "\n\n## Clarification from maintainer\n"@ + ctx.answer
        + "\n\nUse the previous analysis as a starting point. The clarification above resolves\nquestions from the prior attempt. Update the plan accordingly."@
}

/// What the triage stage is asked: the task with its labels and its body,
/// and for a resumed task what is known of its earlier round.
pub open spec fn spec_analyze_prompt(
    issue: ForgeIssueView,
    clarification: Option<ClarificationContextView>,
) -> Seq<char> {
    heading(issue) + "\nLabels: "@ + join(issue.labels, ", "@) + "\n\n"@ + issue.body
        + match clarification {
        Some(ctx) => clarification_section(ctx),
        None => Seq::empty(),
    }
}

/// What the triage stage is asked.
pub fn analyze_prompt(issue: &ForgeIssue, clarification: Option<&ClarificationContext>) -> (r: String)
    ensures
        r@ == spec_analyze_prompt(issue@, clarification.deep_view()),
{
    let mut out = heading_of(issue);
    out.append("\nLabels: ");
    out.append(join_with(&issue.labels, ", ").as_str());
    out.append("\n\n");
    out.append(issue.body.as_str());
    match clarification {
        Some(ctx) => {
            let ghost before = out@;
            out.append("\n\n## Previous Analysis (from prior analysis attempt)\nRelevant files: ");
            out.append(join_with(&ctx.previous_analysis.relevant_files, ", ").as_str());
            out.append("\nPlan: ");
            out.append(ctx.previous_analysis.plan.as_str());
            out.append("\nContext: ");
            out.append(ctx.previous_analysis.context.as_str());
            out.append("\n\n## Clarification from maintainer\n");
            out.append(ctx.answer.as_str());
            out.append(
                "\n\nUse the previous analysis as a starting point. The clarification above resolves\nquestions from the prior attempt. Update the plan accordingly.",
            );
            assert(out@ == before + clarification_section(ctx@));
        },
        None => {
            assert(out@ + Seq::<char>::empty() == out@);
        },
    }
    out
}

/// What the consultation is asked: the task, and the plan that was found
/// insufficient.
pub open spec fn spec_consult_prompt(issue: ForgeIssueView, analysis: AnalysisResultView) -> Seq<char> {
    heading(issue) + "\n\n"@ + issue.body
        + "\n\n## Previous analysis attempt (insufficient):\n- Plan: "@ + analysis.plan
        + "\n- Relevant files: "@ + join(analysis.relevant_files, ", "@) + "\n- Steps: "@ + join(
        analysis.implementation_steps,
        "; "@,
    ) + "\n- Context: "@ + analysis.context
}

/// What the consultation is asked.
pub fn consult_prompt(issue: &ForgeIssue, analysis: &AnalysisResult) -> (r: String)
    ensures
        r@ == spec_consult_prompt(issue@, analysis@),
{
    let mut out = heading_of(issue);
    out.append("\n\n");
    out.append(issue.body.as_str());
    out.append("\n\n## Previous analysis attempt (insufficient):\n- Plan: ");
    out.append(analysis.plan.as_str());
    out.append("\n- Relevant files: ");
    out.append(join_with(&analysis.relevant_files, ", ").as_str());
    out.append("\n- Steps: ");
    out.append(join_with(&analysis.implementation_steps, "; ").as_str());
    out.append("\n- Context: ");
    out.append(analysis.context.as_str());
    out
}

/// Each of `items` as a line of a list.
pub open spec fn bullets(items: Seq<Seq<char>>) -> Seq<char>
    decreases items.len(),
{
    if items.len() == 0 {
        Seq::empty()
    } else {
        bullets(items.drop_last()) + "- "@ + items.last() + "\n"@
    }
}

fn append_bullets(out: &mut String, items: &Vec<String>)
    ensures
        final(out)@ == old(out)@ + bullets(items.deep_view()),
{
    let ghost start = out@;
    let n = items.len();
    let mut i: usize = 0;
    assert(items.deep_view().take(0) == Seq::<Seq<char>>::empty());
    assert(start + Seq::<char>::empty() == start);
    while i < n
        invariant
            n == items@.len(),
            i <= n,
            out@ == start + bullets(items.deep_view().take(i as int)),
        decreases n - i,
    {
        assert(items.deep_view().take(i + 1).drop_last() == items.deep_view().take(i as int));
        assert(items.deep_view().take(i + 1).last() == items@[i as int]@);
        let ghost before = bullets(items.deep_view().take(i as int));
        out.append("- ");
        out.append(items[i].as_str());
        out.append("\n");
        assert(out@ == start + (before + "- "@ + items@[i as int]@ + "\n"@));
        i = i + 1;
    }
    assert(items.deep_view().take(n as int) == items.deep_view());
}

/// What an attempt is told of the verdict that rejected the one before it:
/// the issues and the suggestions, each under a heading of its own unless
/// there are none.
pub open spec fn feedback_section(verdict: ReviewResultView) -> Seq<char> {
    "\n\n## Previous Review Feedback\n\nThe previous implementation was rejected. Address the following:\n"@
        + if verdict.issues.len() > 0 {
        "\n### Issues\n"@ + bullets(verdict.issues)
    } else {
        Seq::empty()
    } + if verdict.suggestions.len() > 0 {
        "\n### Suggestions\n"@ + bullets(verdict.suggestions)
    } else {
        Seq::empty()
    }
}

/// What the implement stage is asked: the task, and after a rejection what
/// the review found.
pub open spec fn spec_implement_prompt(issue: ForgeIssueView, feedback: Option<ReviewResultView>) -> Seq<
    char,
> {
    "## "@ + heading(issue) + "\n\n"@ + issue.body + match feedback {
        Some(verdict) => feedback_section(verdict),
        None => Seq::empty(),
    }
}

/// What the implement stage is asked.
pub fn implement_prompt(issue: &ForgeIssue, feedback: Option<&ReviewResult>) -> (r: String)
    ensures
        r@ == spec_implement_prompt(issue@, feedback.deep_view()),
{
    let mut out = String::from_str("## ");
    out.append(heading_of(issue).as_str());
    out.append("\n\n");
    out.append(issue.body.as_str());
    let ghost task = out@;
    match feedback {
        Some(verdict) => {
            out.append(
                "\n\n## Previous Review Feedback\n\nThe previous implementation was rejected. Address the following:\n",
            );
            let ghost opened = out@;
            if verdict.issues.len() > 0 {
                out.append("\n### Issues\n");
                append_bullets(&mut out, &verdict.issues);
            } else {
                assert(out@ + Seq::<char>::empty() == out@);
            }
            let ghost issues = out@;
            if verdict.suggestions.len() > 0 {
                out.append("\n### Suggestions\n");
                append_bullets(&mut out, &verdict.suggestions);
            } else {
                assert(out@ + Seq::<char>::empty() == out@);
            }
            assert(out@ == task + feedback_section(verdict@));
        },
        None => {
            assert(out@ + Seq::<char>::empty() == out@);
        },
    }
    out
}

/// What the review stage is asked: the task, the plan, and what changed.
pub open spec fn spec_review_prompt(issue: ForgeIssueView, plan: Seq<char>, diff: Seq<char>) -> Seq<
    char,
> {
    "## "@ + heading(issue) + "\n\n"@ + issue.body + "\n\n## Implementation Plan\n\n"@ + plan
        + "\n\n## Diff\n\n```\n"@ + diff + "\n```"@
}

/// What the review stage is asked, given the diff as it is shown.
pub fn review_prompt(issue: &ForgeIssue, plan: &str, diff: &str) -> (r: String)
    ensures
        r@ == spec_review_prompt(issue@, plan@, diff@),
{
    let mut out = String::from_str("## ");
    out.append(heading_of(issue).as_str());
    out.append("\n\n");
    out.append(issue.body.as_str());
    out.append("\n\n## Implementation Plan\n\n");
    out.append(plan);
    out.append("\n\n## Diff\n\n```\n");
    out.append(diff);
    out.append("\n```");
    out
}

/// A diff cut to at most `max_len` bytes: all of it where it is no longer,
/// and else its longest beginning of at most `max_len` bytes that ends
/// between two characters.
pub fn truncate_diff(diff: &str, max_len: usize) -> (r: &str)
    ensures
        r@.is_prefix_of(diff@),
        encode_utf8(diff@).len() <= max_len ==> r@ == diff@,
        encode_utf8(diff@).len() > max_len ==> {
            &&& encode_utf8(r@).len() <= max_len
            &&& forall|k: int|
                encode_utf8(r@).len() < k <= max_len ==> !is_char_boundary(encode_utf8(diff@), k)
        },
{
    if diff.as_bytes().len() <= max_len {
        return diff;
    }
    proof {
        encode_utf8_valid_utf8(diff@);
    }
    let mut at: usize = max_len;
    while !diff.is_char_boundary(at)
        invariant
            valid_utf8(encode_utf8(diff@)),
            at <= max_len < encode_utf8(diff@).len(),
            forall|k: int| at < k <= max_len ==> !is_char_boundary(encode_utf8(diff@), k),
        decreases at,
    {
        proof {
            is_char_boundary_start_end_of_seq(encode_utf8(diff@));
        }
        at = at - 1;
    }
    let (head, tail) = diff.split_at(at);
    proof {
        let bytes = encode_utf8(diff@);
        encode_utf8_valid_utf8(diff@);
        encode_utf8_decode_utf8(diff@);
        encode_utf8_decode_utf8(head@);
        encode_utf8_decode_utf8(tail@);
        valid_utf8_split(bytes, at as int);
        decode_utf8_split(bytes, at as int);
        assert(diff@ == head@ + tail@);
    }
    head
}

} // verus!
