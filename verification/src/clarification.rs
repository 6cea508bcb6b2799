//! The clarification channel: for each task at most one question document
//! and at most one answer document. A task that waits for a human rests
//! until a non-blank answer lies beside its question.

use crate::decimal::{
    decimal, digits, lemma_decimal, lemma_decimal_round_trip, parse_decimal, parse_u64,
    u64_to_string,
};
use crate::lines::{join, join_with, line_feed, lines, split, split_fields, split_lines};
use crate::task::{ForgeIssue, ForgeIssueView};
use crate::text::{
    same_text, str_ends_with, str_starts_with, str_strip_prefix, str_strip_suffix, strip_prefix,
    strip_suffix,
};
use crate::triage::{AnalysisResult, AnalysisResultView};
use vstd::prelude::*;

verus! {

// ---------------------------------------------------------------------------
// The question document
// ---------------------------------------------------------------------------

/// The first line of the question document of task `number`.
pub open spec fn title_line(number: u64) -> Seq<char> {
    "# Clarification needed: Issue #"@ + decimal(number as nat)
}

/// The line of a question document that names the files.
pub open spec fn files_line(files: Seq<Seq<char>>) -> Seq<char> {
    "Relevant files: "@ + join(files, ", "@)
}

/// The line of a question document that holds the plan.
pub open spec fn plan_line(plan: Seq<char>) -> Seq<char> {
    "Plan: "@ + plan
}

/// The line of a question document that holds the context.
pub open spec fn context_line(context: Seq<char>) -> Seq<char> {
    "Context: "@ + context
}

/// What stands in a question document before what the analysis found: the
/// first line, an empty line, and the task under its heading.
pub open spec fn preamble(issue: ForgeIssueView) -> Seq<char> {
    title_line(issue.number) + line_feed() + line_feed() + "## Issue"@ + line_feed() + issue.title
        + line_feed() + issue.body + line_feed() + line_feed()
}

/// What a question document says of the analysis, under its heading: the
/// files, the plan and the context, each on a line of its own, and an empty
/// line.
pub open spec fn analysis_section(analysis: AnalysisResultView) -> Seq<char> {
    "## Previous Analysis"@ + line_feed() + files_line(analysis.relevant_files) + line_feed()
        + plan_line(analysis.plan) + line_feed() + context_line(analysis.context) + line_feed()
        + line_feed()
}

/// The questions of a question document, under their heading.
pub open spec fn questions_section(questions: Seq<char>) -> Seq<char> {
    "## Questions"@ + line_feed() + questions + line_feed()
}

/// The text of the question document of a task: the task, what the analysis
/// found, and the questions, each under a heading of its own.
pub open spec fn question_text(
    issue: ForgeIssueView,
    analysis: AnalysisResultView,
    questions: Seq<char>,
) -> Seq<char> {
    preamble(issue) + analysis_section(analysis) + questions_section(questions)
}

/// The text of the question document of a task.
pub fn render_question(issue: &ForgeIssue, analysis: &AnalysisResult, questions: &str) -> (r: String)
    ensures
        r@ == question_text(issue@, analysis@, questions@),
{
    proof {
        reveal_strlit("\n");
    }
    assert("\n"@ =~= line_feed());
    let mut out = String::from_str("# Clarification needed: Issue #");
    out.append(u64_to_string(issue.number).as_str());
    out.append("\n");
    out.append("\n");
    out.append("## Issue");
    out.append("\n");
    out.append(issue.title.as_str());
    out.append("\n");
    out.append(issue.body.as_str());
    out.append("\n");
    out.append("\n");
    assert(out@ == preamble(issue@));
    let ghost first = out@;
    out.append("## Previous Analysis");
    out.append("\n");
    out.append("Relevant files: ");
    out.append(join_with(&analysis.relevant_files, ", ").as_str());
    out.append("\n");
    out.append("Plan: ");
    out.append(analysis.plan.as_str());
    out.append("\n");
    out.append("Context: ");
    out.append(analysis.context.as_str());
    out.append("\n");
    out.append("\n");
    assert(out@ == first + analysis_section(analysis@));
    let ghost second = out@;
    out.append("## Questions");
    out.append("\n");
    out.append(questions);
    out.append("\n");
    assert(out@ == second + questions_section(questions@));
    out
}

/// The part of a question document that a line belongs to.
#[derive(Debug, Clone, Copy, PartialEq, Eq, Structural)]
pub enum Section {
    /// Under a heading that is read past.
    Other,
    /// Under the heading of the previous analysis.
    Analysis,
    /// Under the heading of the questions.
    Questions,
}

/// What has been read of a question document.
pub struct Reading {
    pub section: Section,
    pub plan: Seq<char>,
    pub files: Seq<Seq<char>>,
    pub context: Seq<char>,
    pub questions: Seq<char>,
}

impl Reading {
    /// Nothing read yet.
    pub open spec fn start() -> Reading {
        Reading {
            section: Section::Other,
            plan: Seq::empty(),
            files: Seq::empty(),
            context: Seq::empty(),
            questions: Seq::empty(),
        }
    }

    /// What has been read after one more line. A heading opens its section.
    /// Under the analysis a line sets the files, the plan or the context by
    /// the label it begins with; under the questions a line is added to
    /// them, after a line feed unless they are still empty.
    pub open spec fn line(self, line: Seq<char>) -> Reading {
        if "## Previous Analysis"@.is_prefix_of(line) {
            Reading { section: Section::Analysis, ..self }
        } else if "## Questions"@.is_prefix_of(line) {
            Reading { section: Section::Questions, ..self }
        } else if "## "@.is_prefix_of(line) {
            Reading { section: Section::Other, ..self }
        } else {
            match self.section {
                Section::Analysis => if let Some(rest) = strip_prefix(line, "Relevant files: "@) {
                    Reading { files: split(rest, ", "@), ..self }
                } else if let Some(rest) = strip_prefix(line, "Plan: "@) {
                    Reading { plan: rest, ..self }
                } else if let Some(rest) = strip_prefix(line, "Context: "@) {
                    Reading { context: rest, ..self }
                } else {
                    self
                },
                Section::Questions => if self.questions.len() > 0 {
                    Reading { questions: self.questions + "\n"@ + line, ..self }
                } else {
                    Reading { questions: line, ..self }
                },
                Section::Other => self,
            }
        }
    }

    /// What has been read after all of `lines`.
    pub open spec fn all(lines: Seq<Seq<char>>) -> Reading
        decreases lines.len(),
    {
        if lines.len() == 0 {
            Reading::start()
        } else {
            Reading::all(lines.drop_last()).line(lines.last())
        }
    }

    /// The analysis that was read. A question document holds neither its
    /// complexity, which is taken as medium, nor its steps.
    pub open spec fn analysis(self) -> AnalysisResultView {
        AnalysisResultView {
            complexity: "medium"@,
            plan: self.plan,
            relevant_files: self.files,
            implementation_steps: Seq::empty(),
            context: self.context,
        }
    }
}

/// Reads a question document back: the analysis it reports, and the questions.
pub fn parse_question_file(content: &str) -> (r: (AnalysisResult, String))
    ensures
        r.0@ == Reading::all(lines(content@)).analysis(),
        r.1@ == Reading::all(lines(content@)).questions,
{
    let all = split_lines(content);
    let mut section = Section::Other;
    let mut plan = String::new();
    let mut files: Vec<String> = Vec::new();
    let mut context = String::new();
    let mut questions = String::new();
    let n = all.len();
    let mut i: usize = 0;
    assert(all.deep_view().take(0) == Seq::<Seq<char>>::empty());
    assert(files.deep_view() == Seq::<Seq<char>>::empty());
    while i < n
        invariant
            n == all@.len(),
            i <= n,
            all.deep_view() == lines(content@),
            (Reading {
                section,
                plan: plan@,
                files: files.deep_view(),
                context: context@,
                questions: questions@,
            }) == Reading::all(all.deep_view().take(i as int)),
        decreases n - i,
    {
        assert(all.deep_view().take(i + 1).drop_last() == all.deep_view().take(i as int));
        assert(all.deep_view().take(i + 1).last() == all@[i as int]@);
        let line = all[i].as_str();
        if str_starts_with(line, "## Previous Analysis") {
            section = Section::Analysis;
        } else if str_starts_with(line, "## Questions") {
            section = Section::Questions;
        } else if str_starts_with(line, "## ") {
            section = Section::Other;
        } else {
            match section {
                Section::Analysis => {
                    if let Some(rest) = str_strip_prefix(line, "Relevant files: ") {
                        files = split_fields(rest.as_str(), ", ");
                    } else if let Some(rest) = str_strip_prefix(line, "Plan: ") {
                        plan = rest;
                    } else if let Some(rest) = str_strip_prefix(line, "Context: ") {
                        context = rest;
                    }
                },
                Section::Questions => {
                    if questions.as_str().unicode_len() > 0 {
                        questions.append("\n");
                        questions.append(line);
                    } else {
                        questions = String::from_str(line);
                    }
                },
                Section::Other => {},
            }
        }
        i = i + 1;
    }
    assert(all.deep_view().take(n as int) == all.deep_view());
    let steps: Vec<String> = Vec::new();
    assert(steps.deep_view() == Seq::<Seq<char>>::empty());
    let analysis = AnalysisResult {
        complexity: String::from_str("medium"),
        plan,
        relevant_files: files,
        implementation_steps: steps,
        context,
    };
    (analysis, questions)
}

/// What is read of the questions of a document.
pub struct QuestionReading {
    /// Whether the heading of the questions has been read.
    pub open: bool,
    /// Whether the heading after the questions has been read.
    pub closed: bool,
    pub questions: Seq<char>,
}

impl QuestionReading {
    /// Nothing read yet.
    pub open spec fn start() -> QuestionReading {
        QuestionReading { open: false, closed: false, questions: Seq::empty() }
    }

    /// What has been read after one more line: the lines between the heading
    /// of the questions and the next heading are the questions, with a line
    /// feed between each two unless the questions are still empty.
    pub open spec fn line(self, line: Seq<char>) -> QuestionReading {
        if self.closed {
            self
        } else if "## Questions"@.is_prefix_of(line) {
            QuestionReading { open: true, ..self }
        } else if self.open && "## "@.is_prefix_of(line) {
            QuestionReading { closed: true, ..self }
        } else if self.open {
            if self.questions.len() > 0 {
                QuestionReading { questions: self.questions + "\n"@ + line, ..self }
            } else {
                QuestionReading { questions: line, ..self }
            }
        } else {
            self
        }
    }

    /// What has been read after all of `lines`.
    pub open spec fn all(lines: Seq<Seq<char>>) -> QuestionReading
        decreases lines.len(),
    {
        if lines.len() == 0 {
            QuestionReading::start()
        } else {
            QuestionReading::all(lines.drop_last()).line(lines.last())
        }
    }
}

/// The questions of a question document: the lines under their heading, up
/// to the next heading.
pub fn extract_questions(content: &str) -> (r: String)
    ensures
        r@ == QuestionReading::all(lines(content@)).questions,
{
    let all = split_lines(content);
    let mut open = false;
    let mut closed = false;
    let mut questions = String::new();
    let n = all.len();
    let mut i: usize = 0;
    assert(all.deep_view().take(0) == Seq::<Seq<char>>::empty());
    while i < n
        invariant
            n == all@.len(),
            i <= n,
            all.deep_view() == lines(content@),
            (QuestionReading { open, closed, questions: questions@ }) == QuestionReading::all(
                all.deep_view().take(i as int),
            ),
        decreases n - i,
    {
        assert(all.deep_view().take(i + 1).drop_last() == all.deep_view().take(i as int));
        assert(all.deep_view().take(i + 1).last() == all@[i as int]@);
        let line = all[i].as_str();
        if closed {
        } else if str_starts_with(line, "## Questions") {
            open = true;
        } else if open && str_starts_with(line, "## ") {
            closed = true;
        } else if open {
            if questions.as_str().unicode_len() > 0 {
                questions.append("\n");
                questions.append(line);
            } else {
                questions = String::from_str(line);
            }
        }
        i = i + 1;
    }
    assert(all.deep_view().take(n as int) == all.deep_view());
    questions
}

// ---------------------------------------------------------------------------
// The names of the documents
// ---------------------------------------------------------------------------

/// The name of the question document of task `number`.
pub open spec fn question_name(number: u64) -> Seq<char> {
    decimal(number as nat) + ".md"@
}

/// The name of the answer document of task `number`.
pub open spec fn answer_name(number: u64) -> Seq<char> {
    decimal(number as nat) + ".answer.md"@
}

/// The name of the question document of task `number`.
pub fn question_file_name(number: u64) -> (r: String)
    ensures
        r@ == question_name(number),
{
    let mut out = u64_to_string(number);
    out.append(".md");
    out
}

/// The name of the answer document of task `number`.
pub fn answer_file_name(number: u64) -> (r: String)
    ensures
        r@ == answer_name(number),
{
    let mut out = u64_to_string(number);
    out.append(".answer.md");
    out
}

/// The task whose question document is named `name`: the name ends in
/// `.md` but not in `.answer.md`, and what stands before every `.md` at its
/// end is a number.
pub open spec fn question_number(name: Seq<char>) -> Option<u64> {
    if ".answer.md"@.is_suffix_of(name) || !".md"@.is_suffix_of(name) {
        None
    } else {
        match parse_decimal(strip_all(name, ".md"@), u64::MAX as nat) {
            Some(n) => Some(n as u64),
            None => None,
        }
    }
}

/// `s` without any `suffix` at its end, however often it is repeated there.
pub open spec fn strip_all(s: Seq<char>, suffix: Seq<char>) -> Seq<char>
    decreases s.len(),
{
    if suffix.len() > 0 && suffix.is_suffix_of(s) {
        strip_all(s.take(s.len() - suffix.len()), suffix)
    } else {
        s
    }
}

/// The task whose question document is named `name`.
pub fn question_file_number(name: &str) -> (r: Option<u64>)
    ensures
        r == question_number(name@),
{
    if str_ends_with(name, ".answer.md") || !str_ends_with(name, ".md") {
        return None;
    }
    proof {
        reveal_strlit(".md");
    }
    let mut stem = String::from_str(name);
    let mut more = true;
    while more
        invariant
            ".md"@.len() == 3,
            strip_all(name@, ".md"@) == strip_all(stem@, ".md"@),
            !more ==> !".md"@.is_suffix_of(stem@),
        decreases
                stem@.len() + if more {
                    1nat
                } else {
                    0nat
                },
    {
        match str_strip_suffix(stem.as_str(), ".md") {
            Some(shorter) => {
                stem = shorter;
            },
            None => {
                more = false;
            },
        }
    }
    parse_u64(stem.as_str())
}

/// The task whose answer document is named `name`: the name is exactly the
/// name of the answer document of that task.
pub open spec fn answer_number(name: Seq<char>) -> Option<u64> {
    match strip_suffix(name, ".answer.md"@) {
        Some(stem) => match parse_decimal(stem, u64::MAX as nat) {
            Some(n) => if answer_name(n as u64) == name {
                Some(n as u64)
            } else {
                None
            },
            None => None,
        },
        None => None,
    }
}

/// The task whose answer document is named `name`.
pub fn answer_file_number(name: &str) -> (r: Option<u64>)
    ensures
        r == answer_number(name@),
        r matches Some(n) ==> name@ == answer_name(n),
{
    match str_strip_suffix(name, ".answer.md") {
        Some(stem) => match parse_u64(stem.as_str()) {
            Some(n) => {
                let canonical = answer_file_name(n);
                if same_text(canonical.as_str(), name) {
                    Some(n)
                } else {
                    None
                }
            },
            None => None,
        },
        None => None,
    }
}

/// A number written in decimal ends in none of the letters that the names
/// of the documents end in.
proof fn lemma_decimal_ends_in_digit(n: nat)
    ensures
        decimal(n).len() > 0,
        decimal(n).last() != 'd',
        decimal(n).last() != 'r',
{
    lemma_decimal(n);
    let ds = digits();
    assert(ds[0] == '0' && ds[1] == '1' && ds[2] == '2' && ds[3] == '3' && ds[4] == '4' && ds[5]
        == '5' && ds[6] == '6' && ds[7] == '7' && ds[8] == '8' && ds[9] == '9');
}

/// The name of the question document of a task is read back as that task,
/// and is not the name of an answer document.
pub proof fn lemma_question_name_round_trip(number: u64)
    ensures
        question_number(question_name(number)) == Some(number),
        answer_number(question_name(number)) is None,
{
    reveal_strlit(".md");
    reveal_strlit(".answer.md");
    let stem = decimal(number as nat);
    let name = question_name(number);
    lemma_decimal_ends_in_digit(number as nat);
    lemma_decimal_round_trip(number as nat, u64::MAX as nat);
    assert(name.subrange(name.len() - 3, name.len() as int) =~= ".md"@);
    assert(".md"@.is_suffix_of(name));
    assert(name[name.len() - 4] == stem.last());
    if ".answer.md"@.is_suffix_of(name) {
        assert(name.subrange(name.len() - 10, name.len() as int)[6] == ".answer.md"@[6]);
    }
    assert(name.take(name.len() - 3) =~= stem);
    if ".md"@.is_suffix_of(stem) {
        assert(stem.subrange(stem.len() - 3, stem.len() as int)[2] == ".md"@[2]);
    }
    assert(strip_all(stem, ".md"@) == stem);
    assert(strip_all(name, ".md"@) == stem);
}

/// The name of the answer document of a task is read back as that task,
/// and is not the name of a question document.
pub proof fn lemma_answer_name_round_trip(number: u64)
    ensures
        answer_number(answer_name(number)) == Some(number),
        question_number(answer_name(number)) is None,
{
    reveal_strlit(".answer.md");
    let stem = decimal(number as nat);
    let name = answer_name(number);
    lemma_decimal_round_trip(number as nat, u64::MAX as nat);
    assert(name.subrange(name.len() - 10, name.len() as int) =~= ".answer.md"@);
    assert(".answer.md"@.is_suffix_of(name));
    assert(name.take(name.len() - 10) =~= stem);
}

} // verus!
