//! A task: the unit of work that the pipeline resolves.

use crate::config::{join_path, path_join};
use crate::decimal::{decimal, u64_to_string};
use crate::status::Timestamp;
use vstd::prelude::*;

verus! {

/// Where a task was found.
#[derive(Debug, Clone, Copy, PartialEq, Eq, Structural)]
pub enum TaskSource {
    GitHub,
    Local,
}

impl Default for TaskSource {
    fn default() -> (r: Self)
        ensures
            r == TaskSource::GitHub,
    {
        TaskSource::GitHub
    }
}

/// A task as it was fetched. Its content never changes afterwards.
#[derive(Debug)]
pub struct ForgeIssue {
    pub number: u64,
    pub title: String,
    pub body: String,
    pub labels: Vec<String>,
    pub repo_name: String,
    pub owner: String,
    pub repo: String,
    pub created_at: Timestamp,
    pub source: TaskSource,
}

/// The mathematical content of a [`ForgeIssue`].
pub struct ForgeIssueView {
    pub number: u64,
    pub title: Seq<char>,
    pub body: Seq<char>,
    pub labels: Seq<Seq<char>>,
    pub repo_name: Seq<char>,
    pub owner: Seq<char>,
    pub repo: Seq<char>,
    pub created_at: Timestamp,
    pub source: TaskSource,
}

impl DeepView for ForgeIssue {
    type V = ForgeIssueView;

    open spec fn deep_view(&self) -> ForgeIssueView {
        ForgeIssueView {
            number: self.number,
            title: self.title@,
            body: self.body@,
            labels: self.labels.deep_view(),
            repo_name: self.repo_name@,
            owner: self.owner@,
            repo: self.repo@,
            created_at: self.created_at,
            source: self.source,
        }
    }
}

impl View for ForgeIssue {
    type V = ForgeIssueView;

    open spec fn view(&self) -> ForgeIssueView {
        self.deep_view()
    }
}

impl Clone for ForgeIssue {
    fn clone(&self) -> (r: Self)
        ensures
            r@ == self@,
    {
        let labels = self.labels.clone();
        assert(labels.deep_view() =~= self.labels.deep_view());
        ForgeIssue {
            number: self.number,
            title: self.title.clone(),
            body: self.body.clone(),
            labels,
            repo_name: self.repo_name.clone(),
            owner: self.owner.clone(),
            repo: self.repo.clone(),
            created_at: self.created_at,
            source: self.source,
        }
    }
}

impl ForgeIssueView {
    /// The branch that the task is worked on.
    pub open spec fn branch_name(self) -> Seq<char> {
        "forge/issue-"@ + decimal(self.number as nat)
    }

    /// Owner and repository, with a slash between them.
    pub open spec fn full_repo(self) -> Seq<char> {
        self.owner + "/"@ + self.repo
    }

    /// The sandbox of the task below `worktree_dir`.
    pub open spec fn worktree_path(self, worktree_dir: Seq<char>) -> Seq<char> {
        join_path(worktree_dir, self.branch_name())
    }

    /// The task in one line.
    pub open spec fn text(self) -> Seq<char> {
        self.full_repo() + "#"@ + decimal(self.number as nat) + ": "@ + self.title
    }
}

impl ForgeIssue {
    /// The branch that the task is worked on.
    pub fn branch_name(&self) -> (r: String)
        ensures
            r@ == self@.branch_name(),
    {
        let mut out = String::from_str("forge/issue-");
        out.append(u64_to_string(self.number).as_str());
        out
    }

    /// The sandbox of the task below `worktree_dir`.
    pub fn worktree_path(&self, worktree_dir: &str) -> (r: String)
        ensures
            r@ == self@.worktree_path(worktree_dir@),
    {
        let branch = self.branch_name();
        path_join(worktree_dir, branch.as_str())
    }

    /// Owner and repository, with a slash between them.
    pub fn full_repo(&self) -> (r: String)
        ensures
            r@ == self@.full_repo(),
    {
        let mut out = self.owner.clone();
        out.append("/");
        out.append(self.repo.as_str());
        out
    }

    /// The task in one line.
    pub fn to_text(&self) -> (r: String)
        ensures
            r@ == self@.text(),
    {
        let mut out = self.full_repo();
        out.append("#");
        out.append(u64_to_string(self.number).as_str());
        out.append(": ");
        out.append(self.title.as_str());
        out
    }
}

/// A task that is known by a name of its own, not by a number in a
/// repository.
#[derive(Debug)]
pub struct ForgeTask {
    pub id: String,
    pub title: String,
    pub body: String,
    pub labels: Vec<String>,
    pub created_at: Timestamp,
}

impl Clone for ForgeTask {
    fn clone(&self) -> (r: Self)
        ensures
            r.id == self.id,
            r.title == self.title,
            r.body == self.body,
            r.labels.deep_view() == self.labels.deep_view(),
            r.created_at == self.created_at,
    {
        let labels = self.labels.clone();
        assert(labels.deep_view() =~= self.labels.deep_view());
        ForgeTask {
            id: self.id.clone(),
            title: self.title.clone(),
            body: self.body.clone(),
            labels,
            created_at: self.created_at,
        }
    }
}

impl ForgeTask {
    /// The branch that the task is worked on.
    pub fn branch_name(&self) -> (r: String)
        ensures
            r@ == "forge/"@ + self.id@,
    {
        let mut out = String::from_str("forge/");
        out.append(self.id.as_str());
        out
    }

    /// The sandbox of the task below `worktree_dir`.
    pub fn worktree_path(&self, worktree_dir: &str) -> (r: String)
        ensures
            r@ == join_path(worktree_dir@, "forge/"@ + self.id@),
    {
        let branch = self.branch_name();
        path_join(worktree_dir, branch.as_str())
    }

    /// The task in one line.
    pub fn to_text(&self) -> (r: String)
        ensures
            r@ == self.id@ + ": "@ + self.title@,
    {
        let mut out = self.id.clone();
        out.append(": ");
        out.append(self.title.as_str());
        out
    }
}

} // verus!
