//! An intent: a piece of work as its author wrote it down, with the
//! questions that were asked about it.

use vstd::prelude::*;

verus! {

/// A question about an intent, and its answer once there is one.
#[derive(Debug)]
pub struct Clarification {
    pub question: String,
    pub answer: Option<String>,
}

impl Clone for Clarification {
    fn clone(&self) -> (r: Self)
        ensures
            r == *self,
    {
        Clarification { question: self.question.clone(), answer: self.answer.clone() }
    }
}

/// How far an intent has come.
#[derive(Debug, Clone, Copy, PartialEq, Eq, Structural)]
pub enum IntentStatus {
    Proposed,
    Approved,
    Implementing,
    Done,
    Blocked,
    Error,
}

impl Default for IntentStatus {
    fn default() -> (r: Self)
        ensures
            r == IntentStatus::Proposed,
    {
        IntentStatus::Proposed
    }
}

/// An intent. Its identity is the stem of the file it was read from.
#[derive(Debug)]
pub struct Intent {
    pub file_stem: String,
    pub title: String,
    pub body: String,
    pub intent_type: Option<String>,
    pub source: String,
    pub risk: Option<String>,
    pub status: IntentStatus,
    pub parent: Option<String>,
    pub clarifications: Vec<Clarification>,
    pub created_at: Option<String>,
}

/// The position of the first of `asked` from `from` on that has no answer.
pub open spec fn unanswered_from(asked: Seq<Clarification>, from: int) -> Option<int>
    decreases asked.len() - from,
{
    if from < 0 || from >= asked.len() {
        None
    } else if asked[from].answer is None {
        Some(from)
    } else {
        unanswered_from(asked, from + 1)
    }
}

impl Intent {
    /// The identity of the intent.
    pub fn id(&self) -> (r: &str)
        ensures
            r@ == self.file_stem@,
    {
        self.file_stem.as_str()
    }

    /// The branch that the intent is worked on.
    pub fn branch_name(&self) -> (r: String)
        ensures
            r@ == "forge/"@ + self.file_stem@,
    {
        let mut out = String::from_str("forge/");
        out.append(self.file_stem.as_str());
        out
    }

    /// Whether a question about the intent still waits for its answer.
    pub fn needs_clarification(&self) -> (r: bool)
        ensures
            r == unanswered_from(self.clarifications@, 0) is Some,
            r == exists|i: int|
                0 <= i < self.clarifications@.len() && (#[trigger] self.clarifications@[i]).answer
                    is None,
    {
        let n = self.clarifications.len();
        let mut i: usize = 0;
        while i < n
            invariant
                n == self.clarifications@.len(),
                i <= n,
                unanswered_from(self.clarifications@, 0) == unanswered_from(
                    self.clarifications@,
                    i as int,
                ),
                forall|k: int| 0 <= k < i ==> (#[trigger] self.clarifications@[k]).answer is Some,
            decreases n - i,
        {
            if self.clarifications[i].answer.is_none() {
                return true;
            }
            i = i + 1;
        }
        false
    }

    /// The intent in one line.
    pub fn to_text(&self) -> (r: String)
        ensures
            r@ == self.file_stem@ + ": "@ + self.title@,
    {
        let mut out = self.file_stem.clone();
        out.append(": ");
        out.append(self.title.as_str());
        out
    }
}

} // verus!
