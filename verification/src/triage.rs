//! What the analysing stages produce: the plan of the triage stage, the
//! outcome of the consultation, and the verdict of the review.

use crate::model::{spec_complexity_or_medium, Complexity};
use vstd::prelude::*;

verus! {

/// How clearly a task is stated.
#[derive(Debug, Clone, Copy, PartialEq, Eq, Structural)]
pub enum Clarity {
    Clear,
    Unclear,
    NeedsMoreInfo,
}

/// The first, quick look at a task.
#[derive(Debug)]
pub struct TriageResult {
    pub actionable: bool,
    pub clarity: Clarity,
    pub complexity: String,
    pub summary: String,
}

impl Clone for TriageResult {
    fn clone(&self) -> (r: Self)
        ensures
            r == *self,
    {
        TriageResult {
            actionable: self.actionable,
            clarity: self.clarity,
            complexity: self.complexity.clone(),
            summary: self.summary.clone(),
        }
    }
}

impl TriageResult {
    /// A task that cannot be acted on is skipped.
    pub fn should_skip(&self) -> (r: bool)
        ensures
            r == !self.actionable,
    {
        !self.actionable
    }

    /// A task that is not clearly stated needs a question answered.
    pub fn needs_clarification(&self) -> (r: bool)
        ensures
            r == !(self.clarity is Clear),
    {
        !matches!(self.clarity, Clarity::Clear)
    }

    /// The declared complexity, `Medium` where the word names none.
    pub fn complexity(&self) -> (r: Complexity)
        ensures
            r == spec_complexity_or_medium(self.complexity@),
    {
        Complexity::parse_or_medium(self.complexity.as_str())
    }
}

/// The plan that the triage stage makes for a task.
#[derive(Debug)]
pub struct AnalysisResult {
    pub complexity: String,
    pub plan: String,
    pub relevant_files: Vec<String>,
    pub implementation_steps: Vec<String>,
    pub context: String,
}

/// The mathematical content of an [`AnalysisResult`].
pub struct AnalysisResultView {
    pub complexity: Seq<char>,
    pub plan: Seq<char>,
    pub relevant_files: Seq<Seq<char>>,
    pub implementation_steps: Seq<Seq<char>>,
    pub context: Seq<char>,
}

impl DeepView for AnalysisResult {
    type V = AnalysisResultView;

    open spec fn deep_view(&self) -> AnalysisResultView {
        AnalysisResultView {
            complexity: self.complexity@,
            plan: self.plan@,
            relevant_files: self.relevant_files.deep_view(),
            implementation_steps: self.implementation_steps.deep_view(),
            context: self.context@,
        }
    }
}

impl View for AnalysisResult {
    type V = AnalysisResultView;

    open spec fn view(&self) -> AnalysisResultView {
        self.deep_view()
    }
}

impl Clone for AnalysisResult {
    fn clone(&self) -> (r: Self)
        ensures
            r@ == self@,
    {
        let relevant_files = self.relevant_files.clone();
        let implementation_steps = self.implementation_steps.clone();
        assert(relevant_files.deep_view() =~= self.relevant_files.deep_view());
        assert(implementation_steps.deep_view() =~= self.implementation_steps.deep_view());
        AnalysisResult {
            complexity: self.complexity.clone(),
            plan: self.plan.clone(),
            relevant_files,
            implementation_steps,
            context: self.context.clone(),
        }
    }
}

impl AnalysisResultView {
    /// A plan is sufficient when it is not empty, names at least one file
    /// and has at least one step.
    pub open spec fn is_sufficient(self) -> bool {
        self.plan.len() > 0 && self.relevant_files.len() > 0 && self.implementation_steps.len() > 0
    }

    /// The declared complexity, `Medium` where the word names none.
    pub open spec fn complexity(self) -> Complexity {
        spec_complexity_or_medium(self.complexity)
    }
}

impl AnalysisResult {
    /// Whether the plan can be implemented as it stands: it is not empty,
    /// names at least one file and has at least one step.
    pub fn is_sufficient(&self) -> (r: bool)
        ensures
            r == self@.is_sufficient(),
            r == (self.plan@.len() > 0 && self.relevant_files@.len() > 0
                && self.implementation_steps@.len() > 0),
    {
        self.relevant_files.len() > 0 && self.implementation_steps.len() > 0
            && self.plan.as_str().unicode_len() > 0
    }

    /// The declared complexity, `Medium` where the word names none.
    pub fn complexity(&self) -> (r: Complexity)
        ensures
            r == self@.complexity(),
    {
        Complexity::parse_or_medium(self.complexity.as_str())
    }
}

/// What the consultation, a second analysis by the most capable tier, yields.
#[derive(Debug)]
pub enum ConsultationOutcome {
    /// A corrected plan.
    Resolved(AnalysisResult),
    /// A question for a human.
    NeedsClarification(String),
}

/// The mathematical content of a [`ConsultationOutcome`].
pub enum ConsultationOutcomeView {
    Resolved(AnalysisResultView),
    NeedsClarification(Seq<char>),
}

impl DeepView for ConsultationOutcome {
    type V = ConsultationOutcomeView;

    open spec fn deep_view(&self) -> ConsultationOutcomeView {
        match self {
            ConsultationOutcome::Resolved(a) => ConsultationOutcomeView::Resolved(a@),
            ConsultationOutcome::NeedsClarification(m) => ConsultationOutcomeView::NeedsClarification(
                m@,
            ),
        }
    }
}

impl View for ConsultationOutcome {
    type V = ConsultationOutcomeView;

    open spec fn view(&self) -> ConsultationOutcomeView {
        self.deep_view()
    }
}

/// The verdict of the review on an implementation.
#[derive(Debug)]
pub struct ReviewResult {
    pub approved: bool,
    pub issues: Vec<String>,
    pub suggestions: Vec<String>,
}

/// The mathematical content of a [`ReviewResult`].
pub struct ReviewResultView {
    pub approved: bool,
    pub issues: Seq<Seq<char>>,
    pub suggestions: Seq<Seq<char>>,
}

impl DeepView for ReviewResult {
    type V = ReviewResultView;

    open spec fn deep_view(&self) -> ReviewResultView {
        ReviewResultView {
            approved: self.approved,
            issues: self.issues.deep_view(),
            suggestions: self.suggestions.deep_view(),
        }
    }
}

impl View for ReviewResult {
    type V = ReviewResultView;

    open spec fn view(&self) -> ReviewResultView {
        self.deep_view()
    }
}

impl Clone for ReviewResult {
    fn clone(&self) -> (r: Self)
        ensures
            r@ == self@,
    {
        let issues = self.issues.clone();
        let suggestions = self.suggestions.clone();
        assert(issues.deep_view() =~= self.issues.deep_view());
        assert(suggestions.deep_view() =~= self.suggestions.deep_view());
        ReviewResult { approved: self.approved, issues, suggestions }
    }
}

/// The plan of the deep triage: an analysis under its other name.
pub type DeepTriageResult = AnalysisResult;

/// The outcome of the architect: a consultation under its other name.
pub type ArchitectOutcome = ConsultationOutcome;

} // verus!
