//! A work item: a task together with the plan made for it, as it is handed
//! to a worker.

use crate::decimal::{decimal, u64_to_string};
use crate::model::{spec_complexity_or_medium, Complexity};
use crate::triage::AnalysisResult;
use vstd::prelude::*;

verus! {

/// A task as a local file states it.
#[derive(Debug)]
pub struct Issue {
    pub id: String,
    pub title: String,
    pub body: String,
    pub labels: Vec<String>,
}

impl Issue {
    /// The branch that the task is worked on.
    pub fn branch_name(&self) -> (r: String)
        ensures
            r@ == "forge/"@ + self.id@,
    {
        let mut out = String::from_str("forge/");
        out.append(self.id.as_str());
        out
    }

    /// The task in one line.
    pub fn to_text(&self) -> (r: String)
        ensures
            r@ == self.id@ + ": "@ + self.title@,
    {
        let mut out = self.id.clone();
        out.append(": ");
        out.append(self.title.as_str());
        out
    }
}

/// How far the work on an item has come.
#[derive(Debug, Clone, Copy, PartialEq, Eq, Structural)]
pub enum WorkStatus {
    Pending,
    Executing,
    Completed,
    Failed,
}

impl Default for WorkStatus {
    fn default() -> (r: Self)
        ensures
            r == WorkStatus::Pending,
    {
        WorkStatus::Pending
    }
}

/// A work item.
#[derive(Debug)]
pub struct Task {
    pub id: String,
    pub title: String,
    pub body: String,
    pub status: WorkStatus,
    pub complexity: String,
    pub plan: String,
    pub relevant_files: Vec<String>,
    pub implementation_steps: Vec<String>,
    pub context: String,
}

impl Task {
    /// The work item of `issue` with the plan `deep`, not yet begun.
    pub fn from_analysis(issue: &Issue, deep: &AnalysisResult) -> (r: Task)
        ensures
            r.id@ == issue.id@,
            r.title@ == issue.title@,
            r.body@ == issue.body@,
            r.status == WorkStatus::Pending,
            r.complexity@ == deep.complexity@,
            r.plan@ == deep.plan@,
            r.relevant_files.deep_view() == deep.relevant_files.deep_view(),
            r.implementation_steps.deep_view() == deep.implementation_steps.deep_view(),
            r.context@ == deep.context@,
    {
        let relevant_files = deep.relevant_files.clone();
        let implementation_steps = deep.implementation_steps.clone();
        assert(relevant_files.deep_view() =~= deep.relevant_files.deep_view());
        assert(implementation_steps.deep_view() =~= deep.implementation_steps.deep_view());
        Task {
            id: issue.id.clone(),
            title: issue.title.clone(),
            body: issue.body.clone(),
            status: WorkStatus::Pending,
            complexity: deep.complexity.clone(),
            plan: deep.plan.clone(),
            relevant_files,
            implementation_steps,
            context: deep.context.clone(),
        }
    }

    /// The declared complexity, `Medium` where the word names none.
    pub fn complexity(&self) -> (r: Complexity)
        ensures
            r == spec_complexity_or_medium(self.complexity@),
    {
        Complexity::parse_or_medium(self.complexity.as_str())
    }
}

/// `index` in decimal, with zeros in front up to three digits.
pub open spec fn padded(index: u32) -> Seq<char> {
    if index < 10 {
        "00"@ + decimal(index as nat)
    } else if index < 100 {
        "0"@ + decimal(index as nat)
    } else {
        decimal(index as nat)
    }
}

/// The name of the file of the `index`-th work item of task `task_id`.
pub fn task_filename(task_id: &str, index: u32) -> (r: String)
    ensures
        r@ == task_id@ + "-"@ + padded(index) + ".yaml"@,
{
    let mut out = String::from_str(task_id);
    out.append("-");
    let ghost head = out@;
    if index < 10 {
        out.append("00");
    } else if index < 100 {
        out.append("0");
    }
    out.append(u64_to_string(index as u64).as_str());
    assert(out@ == head + padded(index));
    out.append(".yaml");
    out
}

} // verus!
