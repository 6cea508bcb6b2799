//! The documents of the clarification channel of one repository, held by
//! task, and what can be done with them: ask, answer, check, clear away,
//! and list what is still open.

use crate::clarification::{parse_question_file, question_text, render_question, Reading};
use crate::lines::lines;
use crate::task::ForgeIssue;
use crate::text::{chars_of, is_blank, trim_range};
use crate::triage::{AnalysisResult, AnalysisResultView};
use vstd::prelude::*;

verus! {

/// The two documents that a task may have.
pub struct Docs {
    pub question: Option<Seq<char>>,
    pub answer: Option<Seq<char>>,
}

/// What a resumed task knows of its earlier round.
#[derive(Debug)]
pub struct ClarificationContext {
    pub previous_analysis: AnalysisResult,
    pub questions: String,
    pub answer: String,
}

/// The mathematical content of a [`ClarificationContext`].
pub struct ClarificationContextView {
    pub previous_analysis: AnalysisResultView,
    pub questions: Seq<char>,
    pub answer: Seq<char>,
}

impl DeepView for ClarificationContext {
    type V = ClarificationContextView;

    open spec fn deep_view(&self) -> ClarificationContextView {
        ClarificationContextView {
            previous_analysis: self.previous_analysis@,
            questions: self.questions@,
            answer: self.answer@,
        }
    }
}

impl View for ClarificationContext {
    type V = ClarificationContextView;

    open spec fn view(&self) -> ClarificationContextView {
        self.deep_view()
    }
}

impl Docs {
    /// No document at all.
    pub open spec fn none() -> Docs {
        Docs { question: None, answer: None }
    }

    /// The documents after the question document was written as `text`.
    pub open spec fn asked(self, text: Seq<char>) -> Docs {
        Docs { question: Some(text), ..self }
    }

    /// The documents after the answer document was written as `text`.
    pub open spec fn answered(self, text: Seq<char>) -> Docs {
        Docs { answer: Some(text), ..self }
    }

    /// Whether a question waits for its answer.
    pub open spec fn is_pending(self) -> bool {
        self.question is Some && self.answer is None
    }

    /// What a task learns when it looks for its answer: nothing unless there
    /// is an answer document that is not blank; else the answer as it was
    /// written, with what the question document reports. A missing question
    /// document is read as an empty one.
    pub open spec fn check(self) -> Option<ClarificationContextView> {
        match self.answer {
            Some(answer) => if is_blank(answer) {
                None
            } else {
                let asked = match self.question {
                    Some(q) => q,
                    None => Seq::empty(),
                };
                Some(
                    ClarificationContextView {
                        previous_analysis: Reading::all(lines(asked)).analysis(),
                        questions: Reading::all(lines(asked)).questions,
                        answer,
                    },
                )
            },
            None => None,
        }
    }
}

/// An answer that is not blank is found again as it was written, whatever
/// documents there were before.
pub proof fn lemma_answer_is_found(docs: Docs, text: Seq<char>)
    requires
        !is_blank(text),
    ensures
        docs.answered(text).check() is Some,
        docs.answered(text).check().unwrap().answer == text,
{
}

/// Once the documents are cleared away, no answer is found.
pub proof fn lemma_cleared_finds_nothing()
    ensures
        Docs::none().check() is None,
{
}

/// The documents of one task.
#[derive(Debug)]
struct Entry {
    number: u64,
    question: Option<String>,
    answer: Option<String>,
}

/// The mathematical content of an [`Entry`].
pub struct EntryView {
    pub number: u64,
    pub question: Option<Seq<char>>,
    pub answer: Option<Seq<char>>,
}

impl DeepView for Entry {
    type V = EntryView;

    closed spec fn deep_view(&self) -> EntryView {
        EntryView {
            number: self.number,
            question: self.question.deep_view(),
            answer: self.answer.deep_view(),
        }
    }
}

impl View for Entry {
    type V = EntryView;

    closed spec fn view(&self) -> EntryView {
        self.deep_view()
    }
}

impl Clone for Entry {
    fn clone(&self) -> (r: Self)
        ensures
            r == *self,
    {
        Entry { number: self.number, question: self.question.clone(), answer: self.answer.clone() }
    }
}

impl EntryView {
    /// The documents of the entry.
    pub open spec fn docs(self) -> Docs {
        Docs { question: self.question, answer: self.answer }
    }

    /// The entry of task `number` with the documents `docs`.
    pub open spec fn of(number: u64, docs: Docs) -> EntryView {
        EntryView { number, question: docs.question, answer: docs.answer }
    }
}

/// Whether no two of `entries` belong to the same task.
pub open spec fn distinct_numbers(entries: Seq<EntryView>) -> bool {
    forall|i: int, j: int|
        0 <= i < j < entries.len() ==> (#[trigger] entries[i]).number != (
        #[trigger] entries[j]).number
}

/// Whether `entries` holds an entry of task `number`.
pub open spec fn has_entry(entries: Seq<EntryView>, number: u64) -> bool {
    exists|i: int| 0 <= i < entries.len() && (#[trigger] entries[i]).number == number
}

/// The position of the entry of task `number`, where there is one.
pub open spec fn entry_position(entries: Seq<EntryView>, number: u64) -> int {
    choose|i: int| 0 <= i < entries.len() && (#[trigger] entries[i]).number == number
}

/// The documents of task `number`.
pub open spec fn docs_of(entries: Seq<EntryView>, number: u64) -> Docs {
    if has_entry(entries, number) {
        entries[entry_position(entries, number)].docs()
    } else {
        Docs::none()
    }
}

/// `entries` with `docs` as the documents of task `number`: in the place of
/// its entry where it has one, and else in a new entry at the end.
pub open spec fn put(entries: Seq<EntryView>, number: u64, docs: Docs) -> Seq<EntryView> {
    if has_entry(entries, number) {
        entries.update(entry_position(entries, number), EntryView::of(number, docs))
    } else {
        entries.push(EntryView::of(number, docs))
    }
}

/// Where no two entries belong to one task, an entry is found at its own
/// position.
pub proof fn lemma_entry_unique(entries: Seq<EntryView>, i: int)
    requires
        distinct_numbers(entries),
        0 <= i < entries.len(),
    ensures
        has_entry(entries, entries[i].number),
        entry_position(entries, entries[i].number) == i,
        docs_of(entries, entries[i].number) == entries[i].docs(),
{
    let j = entry_position(entries, entries[i].number);
    if j < i {
        assert(entries[j].number != entries[i].number);
    } else if i < j {
        assert(entries[i].number != entries[j].number);
    }
}

/// Putting the documents of a task makes them its documents, and touches
/// the documents of no other task.
pub proof fn lemma_put(entries: Seq<EntryView>, number: u64, docs: Docs)
    requires
        distinct_numbers(entries),
    ensures
        distinct_numbers(put(entries, number, docs)),
        docs_of(put(entries, number, docs), number) == docs,
        forall|other: u64|
            other != number ==> #[trigger] docs_of(put(entries, number, docs), other) == docs_of(
                entries,
                other,
            ),
{
    let after = put(entries, number, docs);
    let at = if has_entry(entries, number) {
        entry_position(entries, number)
    } else {
        entries.len() as int
    };
    assert(after[at] == EntryView::of(number, docs));
    assert forall|a: int, b: int| 0 <= a < b < after.len() implies (#[trigger] after[a]).number != (
    #[trigger] after[b]).number by {
        if b < entries.len() {
            assert(entries[a].number != entries[b].number);
        } else {
            assert(entries[a].number != number);
        }
    }
    lemma_entry_unique(after, at);
    assert forall|other: u64| other != number implies #[trigger] docs_of(after, other) == docs_of(
        entries,
        other,
    ) by {
        if has_entry(entries, other) {
            let i = entry_position(entries, other);
            assert(after[i] == entries[i]);
            lemma_entry_unique(entries, i);
            lemma_entry_unique(after, i);
        } else {
            assert forall|k: int| 0 <= k < after.len() implies (#[trigger] after[k]).number
                != other by {
                if k < entries.len() && k != at {
                    assert(after[k] == entries[k]);
                    assert(entries[k].number != other);
                }
            }
        }
    }
}

/// A question that waits for its answer, as it is listed.
#[derive(Debug)]
pub struct PendingClarification {
    pub repo_name: String,
    pub issue_number: u64,
    pub content: String,
}

/// The mathematical content of a [`PendingClarification`].
pub struct PendingView {
    pub repo_name: Seq<char>,
    pub issue_number: u64,
    pub content: Seq<char>,
}

impl DeepView for PendingClarification {
    type V = PendingView;

    open spec fn deep_view(&self) -> PendingView {
        PendingView {
            repo_name: self.repo_name@,
            issue_number: self.issue_number,
            content: self.content@,
        }
    }
}

impl View for PendingClarification {
    type V = PendingView;

    open spec fn view(&self) -> PendingView {
        self.deep_view()
    }
}

/// The questions of `entries` that wait for their answer, in the order of
/// the entries, each with the name `repo_name`.
pub open spec fn pending_in(entries: Seq<EntryView>, repo_name: Seq<char>) -> Seq<PendingView>
    decreases entries.len(),
{
    if entries.len() == 0 {
        Seq::empty()
    } else {
        let rest = pending_in(entries.drop_last(), repo_name);
        let last = entries.last();
        if last.docs().is_pending() {
            rest.push(
                PendingView {
                    repo_name,
                    issue_number: last.number,
                    content: last.question.unwrap(),
                },
            )
        } else {
            rest
        }
    }
}

/// The clarification documents of one repository. No task has two entries.
#[derive(Debug)]
pub struct Clarifications {
    entries: Vec<Entry>,
}

impl View for Clarifications {
    type V = Seq<EntryView>;

    /// The entries, oldest first.
    closed spec fn view(&self) -> Seq<EntryView> {
        self.entries.deep_view()
    }
}

impl Clarifications {
    #[verifier::type_invariant]
    spec fn distinct(&self) -> bool {
        distinct_numbers(self.entries.deep_view())
    }

    /// A channel without documents.
    pub fn new() -> (r: Self)
        ensures
            r@ == Seq::<EntryView>::empty(),
    {
        let entries: Vec<Entry> = Vec::new();
        assert(entries.deep_view() == Seq::<EntryView>::empty());
        Clarifications { entries }
    }

    /// The position of the entry of task `number`.
    fn find(&self, number: u64) -> (r: Option<usize>)
        ensures
            distinct_numbers(self@),
            match r {
                Some(i) => i < self@.len() && self@[i as int].number == number && has_entry(
                    self@,
                    number,
                ) && entry_position(self@, number) == i,
                None => !has_entry(self@, number),
            },
    {
        proof {
            use_type_invariant(self);
        }
        let n = self.entries.len();
        let mut i: usize = 0;
        while i < n
            invariant
                n == self.entries@.len(),
                i <= n,
                distinct_numbers(self@),
                forall|k: int| 0 <= k < i ==> (#[trigger] self@[k]).number != number,
            decreases n - i,
        {
            if self.entries[i].number == number {
                proof {
                    lemma_entry_unique(self@, i as int);
                }
                return Some(i);
            }
            i = i + 1;
        }
        None
    }

    /// Puts `entry` in the place of the entry of its task, or at the end
    /// where its task has none.
    fn store(&mut self, entry: Entry)
        ensures
            final(self)@ == put(old(self)@, entry.number, entry@.docs()),
    {
        let at = self.find(entry.number);
        let ghost before = self@;
        proof {
            lemma_put(before, entry.number, entry@.docs());
        }
        let mut entries: Vec<Entry> = Vec::new();
        assert(entries.deep_view() == Seq::<EntryView>::empty());
        std::mem::swap(&mut self.entries, &mut entries);
        match at {
            Some(i) => {
                entries.set(i, entry);
                assert(entries.deep_view() == before.update(i as int, entry@));
            },
            None => {
                entries.push(entry);
                assert(entries.deep_view() == before.push(entry@));
            },
        }
        std::mem::swap(&mut self.entries, &mut entries);
    }

    /// The documents of task `number`, as an entry.
    fn entry_of(&self, number: u64) -> (r: Entry)
        ensures
            r.number == number,
            r@.docs() == docs_of(self@, number),
    {
        match self.find(number) {
            Some(i) => self.entries[i].clone(),
            None => Entry { number, question: None, answer: None },
        }
    }

    /// Writes the question document of a task: what the analysis found, and
    /// the questions for a human.
    pub fn write_clarification(
        &mut self,
        issue: &ForgeIssue,
        analysis: &AnalysisResult,
        questions: &str,
    )
        ensures
            final(self)@ == put(
                old(self)@,
                issue.number,
                docs_of(old(self)@, issue.number).asked(
                    question_text(issue@, analysis@, questions@),
                ),
            ),
    {
        let mut entry = self.entry_of(issue.number);
        entry.question = Some(render_question(issue, analysis, questions));
        self.store(entry);
    }

    /// Puts a question document as it was found.
    pub fn put_question(&mut self, number: u64, content: String)
        ensures
            final(self)@ == put(old(self)@, number, docs_of(old(self)@, number).asked(content@)),
    {
        let mut entry = self.entry_of(number);
        entry.question = Some(content);
        self.store(entry);
    }

    /// Writes the answer document of a task, over an earlier one if there is one.
    pub fn write_answer(&mut self, number: u64, text: &str)
        ensures
            final(self)@ == put(old(self)@, number, docs_of(old(self)@, number).answered(text@)),
    {
        let mut entry = self.entry_of(number);
        entry.answer = Some(String::from_str(text));
        self.store(entry);
    }

    /// Removes both documents of a task.
    pub fn cleanup_clarification(&mut self, number: u64)
        ensures
            final(self)@ == put(old(self)@, number, Docs::none()),
    {
        self.store(Entry { number, question: None, answer: None });
    }

    /// Whether task `number` has a question document.
    pub fn has_question(&self, number: u64) -> (r: bool)
        ensures
            r == docs_of(self@, number).question is Some,
    {
        match self.find(number) {
            Some(i) => self.entries[i].question.is_some(),
            None => false,
        }
    }

    /// What task `number` learns when it looks for its answer: nothing
    /// unless there is an answer that is not blank.
    pub fn check_clarification(&self, number: u64) -> (r: Option<ClarificationContext>)
        ensures
            r.deep_view() == docs_of(self@, number).check(),
    {
        let entry = self.entry_of(number);
        match entry.answer {
            None => None,
            Some(answer) => {
                let v = chars_of(answer.as_str());
                let (a, b) = trim_range(&v, 0, v.len());
                assert(v@.subrange(0, v@.len() as int) == v@);
                if a == b {
                    None
                } else {
                    let (previous_analysis, questions) = match entry.question {
                        Some(q) => parse_question_file(q.as_str()),
                        None => {
                            let empty = String::new();
                            parse_question_file(empty.as_str())
                        },
                    };
                    Some(ClarificationContext { previous_analysis, questions, answer })
                }
            },
        }
    }

    /// The questions that wait for their answer, in the order of the
    /// entries, each with the name `repo_name`.
    pub fn list_pending(&self, repo_name: &str) -> (r: Vec<PendingClarification>)
        ensures
            r.deep_view() == pending_in(self@, repo_name@),
    {
        let mut out: Vec<PendingClarification> = Vec::new();
        let n = self.entries.len();
        let mut i: usize = 0;
        assert(self@.take(0) == Seq::<EntryView>::empty());
        assert(out.deep_view() == Seq::<PendingView>::empty());
        while i < n
            invariant
                n == self.entries@.len(),
                i <= n,
                out.deep_view() == pending_in(self@.take(i as int), repo_name@),
            decreases n - i,
        {
            let ghost before = out.deep_view();
            assert(self@.take(i + 1).drop_last() == self@.take(i as int));
            assert(self@.take(i + 1).last() == self.entries@[i as int]@);
            if self.entries[i].answer.is_none() {
                if let Some(q) = &self.entries[i].question {
                    let item = PendingClarification {
                        repo_name: String::from_str(repo_name),
                        issue_number: self.entries[i].number,
                        content: q.clone(),
                    };
                    out.push(item);
                    assert(out.deep_view() == before.push(item@));
                }
            }
            i = i + 1;
        }
        assert(self@.take(n as int) == self@);
        out
    }
}

/// After a non-blank answer was written for a task, the task finds it as it
/// was written; after its documents were cleared away, it finds nothing.
pub proof fn lemma_round_trip(entries: Seq<EntryView>, number: u64, text: Seq<char>)
    requires
        distinct_numbers(entries),
        !is_blank(text),
    ensures
        docs_of(put(entries, number, docs_of(entries, number).answered(text)), number).check()
            is Some,
        docs_of(
            put(entries, number, docs_of(entries, number).answered(text)),
            number,
        ).check().unwrap().answer == text,
        docs_of(put(entries, number, Docs::none()), number).check() is None,
{
    lemma_put(entries, number, docs_of(entries, number).answered(text));
    lemma_put(entries, number, Docs::none());
}

} // verus!
