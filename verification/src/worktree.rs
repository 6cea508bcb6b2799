//! The sandbox of a task: a worktree on a branch of its own. Creating it is
//! a short exchange with git, decided here step by step.

use crate::config::{join_path, path_join};
use crate::error::{ForgeError, ForgeErrorView};
use crate::lines::{lines, split_lines};
use crate::text::{contains, str_contains, str_strip_prefix, strip_prefix};
use vstd::prelude::*;

verus! {

/// Where the sandbox of `branch` lies: below the worktree directory of the
/// repository, under the name of the branch.
pub open spec fn worktree_location(
    repo_path: Seq<char>,
    worktree_dir: Seq<char>,
    branch: Seq<char>,
) -> Seq<char> {
    join_path(join_path(repo_path, worktree_dir), branch)
}

/// What the creation of a sandbox waits for.
#[derive(Debug, Clone, Copy, PartialEq, Eq, Structural)]
pub enum CreateStage {
    /// The answer whether the sandbox exists.
    Probe,
    /// The directory above the sandbox.
    Parent,
    /// The end of the fetch of the base branch.
    Fetch,
    /// The end of the attempt to add the worktree on a new branch.
    AddNew,
    /// The end of the attempt to add the worktree on the branch that exists.
    AddExisting,
    /// Nothing: the creation has ended.
    Done,
}

/// How the last step of a creation went.
#[derive(Debug)]
pub enum CreateEvent {
    /// Whether the sandbox exists.
    Exists(bool),
    /// The directory above the sandbox is there.
    ParentCreated,
    /// The directory above the sandbox could not be made.
    ParentFailed(String),
    /// The git command ended, with what it printed as errors.
    Finished { success: bool, stderr: String },
}

/// The mathematical content of a [`CreateEvent`].
pub enum CreateEventView {
    Exists(bool),
    ParentCreated,
    ParentFailed(Seq<char>),
    Finished { success: bool, stderr: Seq<char> },
}

impl DeepView for CreateEvent {
    type V = CreateEventView;

    open spec fn deep_view(&self) -> CreateEventView {
        match self {
            CreateEvent::Exists(b) => CreateEventView::Exists(*b),
            CreateEvent::ParentCreated => CreateEventView::ParentCreated,
            CreateEvent::ParentFailed(m) => CreateEventView::ParentFailed(m@),
            CreateEvent::Finished { success, stderr } => CreateEventView::Finished {
                success: *success,
                stderr: stderr@,
            },
        }
    }
}

impl View for CreateEvent {
    type V = CreateEventView;

    open spec fn view(&self) -> CreateEventView {
        self.deep_view()
    }
}

/// What the caller of a creation has to do next.
#[derive(Debug)]
pub enum CreateAction {
    /// Find out whether the sandbox exists.
    Probe,
    /// Make the directory above the sandbox, with all above it.
    MakeParent,
    /// Run git in the repository with these arguments.
    Git(Vec<String>),
    /// The sandbox is there.
    Ready,
    /// The sandbox could not be created.
    Failed(ForgeError),
    /// The event did not apply: nothing changes.
    Idle,
}

/// The mathematical content of a [`CreateAction`].
pub enum CreateActionView {
    Probe,
    MakeParent,
    Git(Seq<Seq<char>>),
    Ready,
    Failed(ForgeErrorView),
    Idle,
}

impl DeepView for CreateAction {
    type V = CreateActionView;

    open spec fn deep_view(&self) -> CreateActionView {
        match self {
            CreateAction::Probe => CreateActionView::Probe,
            CreateAction::MakeParent => CreateActionView::MakeParent,
            CreateAction::Git(args) => CreateActionView::Git(args.deep_view()),
            CreateAction::Ready => CreateActionView::Ready,
            CreateAction::Failed(e) => CreateActionView::Failed(e@),
            CreateAction::Idle => CreateActionView::Idle,
        }
    }
}

impl View for CreateAction {
    type V = CreateActionView;

    open spec fn view(&self) -> CreateActionView {
        self.deep_view()
    }
}

/// The mathematical content of a [`Creation`].
pub struct CreationView {
    pub path: Seq<char>,
    pub branch: Seq<char>,
    pub base_branch: Seq<char>,
    pub stage: CreateStage,
}

impl CreationView {
    /// The arguments that fetch the base branch.
    pub open spec fn fetch_args(self) -> Seq<Seq<char>> {
        seq!["fetch"@, "origin"@, self.base_branch]
    }

    /// The arguments that add the worktree on a new branch off the base branch.
    pub open spec fn add_new_args(self) -> Seq<Seq<char>> {
        seq![
            "worktree"@,
            "add"@,
            "-b"@,
            self.branch,
            self.path,
            "origin/"@ + self.base_branch,
        ]
    }

    /// The arguments that add the worktree on the branch as it exists.
    pub open spec fn add_existing_args(self) -> Seq<Seq<char>> {
        seq!["worktree"@, "add"@, self.path, self.branch]
    }

    /// The creation after `event`, and the action that follows.
    ///
    /// A sandbox that exists is ready as it is: nothing is run. Else the
    /// directory above it is made, the base branch is fetched, whether or
    /// not that succeeds, and the worktree is added on a new branch. Where
    /// git answers that the branch already exists, the worktree is added on
    /// that branch instead. Any other failure to add ends the creation.
    pub open spec fn step(self, event: CreateEventView) -> (CreationView, CreateActionView) {
        match (self.stage, event) {
            (CreateStage::Probe, CreateEventView::Exists(true)) => (
                CreationView { stage: CreateStage::Done, ..self },
                CreateActionView::Ready,
            ),
            (CreateStage::Probe, CreateEventView::Exists(false)) => (
                CreationView { stage: CreateStage::Parent, ..self },
                CreateActionView::MakeParent,
            ),
            (CreateStage::Parent, CreateEventView::ParentCreated) => (
                CreationView { stage: CreateStage::Fetch, ..self },
                CreateActionView::Git(self.fetch_args()),
            ),
            (CreateStage::Parent, CreateEventView::ParentFailed(m)) => (
                CreationView { stage: CreateStage::Done, ..self },
                CreateActionView::Failed(ForgeErrorView::Io(m)),
            ),
            (CreateStage::Fetch, CreateEventView::Finished { success, stderr }) => (
                CreationView { stage: CreateStage::AddNew, ..self },
                CreateActionView::Git(self.add_new_args()),
            ),
            (CreateStage::AddNew, CreateEventView::Finished { success, stderr }) => if success {
                (CreationView { stage: CreateStage::Done, ..self }, CreateActionView::Ready)
            } else if contains(stderr, "already exists"@) {
                (
                    CreationView { stage: CreateStage::AddExisting, ..self },
                    CreateActionView::Git(self.add_existing_args()),
                )
            } else {
                (
                    CreationView { stage: CreateStage::Done, ..self },
                    CreateActionView::Failed(
                        ForgeErrorView::Git("worktree add failed: "@ + stderr),
                    ),
                )
            },
            (CreateStage::AddExisting, CreateEventView::Finished { success, stderr }) => if success {
                (CreationView { stage: CreateStage::Done, ..self }, CreateActionView::Ready)
            } else {
                (
                    CreationView { stage: CreateStage::Done, ..self },
                    CreateActionView::Failed(
                        ForgeErrorView::Git("worktree add failed: "@ + stderr),
                    ),
                )
            },
            _ => (self, CreateActionView::Idle),
        }
    }
}

/// The creation of one sandbox.
#[derive(Debug)]
pub struct Creation {
    path: String,
    branch: String,
    base_branch: String,
    stage: CreateStage,
}

impl View for Creation {
    type V = CreationView;

    closed spec fn view(&self) -> CreationView {
        CreationView {
            path: self.path@,
            branch: self.branch@,
            base_branch: self.base_branch@,
            stage: self.stage,
        }
    }
}

fn failed_to_add(stderr: &str) -> (e: ForgeError)
    ensures
        e@ == ForgeErrorView::Git("worktree add failed: "@ + stderr@),
{
    let mut message = String::from_str("worktree add failed: ");
    message.append(stderr);
    ForgeError::Git(message)
}

impl Creation {
    /// Begins the creation of the sandbox of `branch`, off `base_branch`, in
    /// the worktree directory of the repository at `repo_path`. The first
    /// action is to find out whether the sandbox exists.
    pub fn create(repo_path: &str, worktree_dir: &str, branch: &str, base_branch: &str) -> (r: (
        Creation,
        CreateAction,
    ))
        ensures
            r.0@ == (CreationView {
                path: worktree_location(repo_path@, worktree_dir@, branch@),
                branch: branch@,
                base_branch: base_branch@,
                stage: CreateStage::Probe,
            }),
            r.1@ == CreateActionView::Probe,
    {
        let dir = path_join(repo_path, worktree_dir);
        let path = path_join(dir.as_str(), branch);
        let creation = Creation {
            path,
            branch: String::from_str(branch),
            base_branch: String::from_str(base_branch),
            stage: CreateStage::Probe,
        };
        (creation, CreateAction::Probe)
    }

    /// Where the sandbox lies.
    pub fn path(&self) -> (r: &String)
        ensures
            r@ == self@.path,
    {
        &self.path
    }

    /// What the creation waits for.
    pub fn stage(&self) -> (r: CreateStage)
        ensures
            r == self@.stage,
    {
        self.stage
    }

    fn fetch_args(&self) -> (args: Vec<String>)
        ensures
            args.deep_view() == self@.fetch_args(),
    {
        let mut args: Vec<String> = Vec::new();
        args.push(String::from_str("fetch"));
        args.push(String::from_str("origin"));
        args.push(self.base_branch.clone());
        assert(args.deep_view() == self@.fetch_args());
        args
    }

    fn add_new_args(&self) -> (args: Vec<String>)
        ensures
            args.deep_view() == self@.add_new_args(),
    {
        let mut start = String::from_str("origin/");
        start.append(self.base_branch.as_str());
        let mut args: Vec<String> = Vec::new();
        args.push(String::from_str("worktree"));
        args.push(String::from_str("add"));
        args.push(String::from_str("-b"));
        args.push(self.branch.clone());
        args.push(self.path.clone());
        args.push(start);
        assert(args.deep_view() == self@.add_new_args());
        args
    }

    fn add_existing_args(&self) -> (args: Vec<String>)
        ensures
            args.deep_view() == self@.add_existing_args(),
    {
        let mut args: Vec<String> = Vec::new();
        args.push(String::from_str("worktree"));
        args.push(String::from_str("add"));
        args.push(self.path.clone());
        args.push(self.branch.clone());
        assert(args.deep_view() == self@.add_existing_args());
        args
    }

    /// Takes `event` as the report of how the last action went, and answers
    /// with the next action.
    pub fn step(&mut self, event: CreateEvent) -> (action: CreateAction)
        ensures
            (final(self)@, action@) == old(self)@.step(event@),
    {
        match (self.stage, event) {
            (CreateStage::Probe, CreateEvent::Exists(true)) => {
                self.stage = CreateStage::Done;
                CreateAction::Ready
            },
            (CreateStage::Probe, CreateEvent::Exists(false)) => {
                self.stage = CreateStage::Parent;
                CreateAction::MakeParent
            },
            (CreateStage::Parent, CreateEvent::ParentCreated) => {
                let args = self.fetch_args();
                self.stage = CreateStage::Fetch;
                CreateAction::Git(args)
            },
            (CreateStage::Parent, CreateEvent::ParentFailed(m)) => {
                self.stage = CreateStage::Done;
                CreateAction::Failed(ForgeError::Io(m))
            },
            (CreateStage::Fetch, CreateEvent::Finished { .. }) => {
                let args = self.add_new_args();
                self.stage = CreateStage::AddNew;
                CreateAction::Git(args)
            },
            (CreateStage::AddNew, CreateEvent::Finished { success, stderr }) => {
                if success {
                    self.stage = CreateStage::Done;
                    CreateAction::Ready
                } else if str_contains(stderr.as_str(), "already exists") {
                    let args = self.add_existing_args();
                    self.stage = CreateStage::AddExisting;
                    CreateAction::Git(args)
                } else {
                    self.stage = CreateStage::Done;
                    CreateAction::Failed(failed_to_add(stderr.as_str()))
                }
            },
            (CreateStage::AddExisting, CreateEvent::Finished { success, stderr }) => {
                self.stage = CreateStage::Done;
                if success {
                    CreateAction::Ready
                } else {
                    CreateAction::Failed(failed_to_add(stderr.as_str()))
                }
            },
            _ => CreateAction::Idle,
        }
    }
}

/// Creating the sandbox of a branch a second time, when it exists, answers
/// with the same place and runs nothing: no directory is made and no git
/// command is run.
pub proof fn lemma_create_again(
    repo_path: Seq<char>,
    worktree_dir: Seq<char>,
    branch: Seq<char>,
    first_base: Seq<char>,
    second_base: Seq<char>,
)
    ensures
        ({
            let first = CreationView {
                path: worktree_location(repo_path, worktree_dir, branch),
                branch,
                base_branch: first_base,
                stage: CreateStage::Probe,
            };
            let second = CreationView {
                path: worktree_location(repo_path, worktree_dir, branch),
                branch,
                base_branch: second_base,
                stage: CreateStage::Probe,
            };
            &&& second.path == first.path
            &&& second.step(CreateEventView::Exists(true)).1 == CreateActionView::Ready
            &&& second.step(CreateEventView::Exists(true)).0.path == first.path
            &&& second.step(CreateEventView::Exists(true)).0.stage == CreateStage::Done
        }),
{
}

/// The sandboxes that git lists: of each line that begins with `worktree `,
/// what follows.
pub open spec fn listed_worktrees(lines: Seq<Seq<char>>) -> Seq<Seq<char>>
    decreases lines.len(),
{
    if lines.len() == 0 {
        Seq::empty()
    } else {
        let rest = listed_worktrees(lines.drop_last());
        match strip_prefix(lines.last(), "worktree "@) {
            Some(path) => rest.push(path),
            None => rest,
        }
    }
}

/// The sandboxes in what `git worktree list --porcelain` printed.
pub fn parse_worktree_list(stdout: &str) -> (r: Vec<String>)
    ensures
        r.deep_view() == listed_worktrees(lines(stdout@)),
{
    let all = split_lines(stdout);
    let mut out: Vec<String> = Vec::new();
    let n = all.len();
    let mut i: usize = 0;
    assert(all.deep_view().take(0) == Seq::<Seq<char>>::empty());
    assert(out.deep_view() == Seq::<Seq<char>>::empty());
    while i < n
        invariant
            n == all@.len(),
            i <= n,
            all.deep_view() == lines(stdout@),
            out.deep_view() == listed_worktrees(all.deep_view().take(i as int)),
        decreases n - i,
    {
        let ghost before = out.deep_view();
        assert(all.deep_view().take(i + 1).drop_last() == all.deep_view().take(i as int));
        assert(all.deep_view().take(i + 1).last() == all@[i as int]@);
        if let Some(path) = str_strip_prefix(all[i].as_str(), "worktree ") {
            out.push(path);
            assert(out.deep_view() == before.push(path@));
        }
        i = i + 1;
    }
    assert(all.deep_view().take(n as int) == all.deep_view());
    out
}

} // verus!
