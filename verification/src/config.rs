//! The configuration: the repositories to work on, and the settings of a run.

use crate::error::{ForgeError, ForgeErrorView};
use crate::text::{chars_of, find, find_from};
use vstd::prelude::*;

verus! {

/// When finished work is merged without a human.
#[derive(Debug, Clone, Copy, PartialEq, Eq, Structural)]
pub enum AutoMergePolicy {
    Never,
    TestsPassNoConflict,
    Always,
}

/// Which tier serves which purpose.
#[derive(Debug)]
pub struct ModelSettings {
    pub triage: String,
    pub default: String,
    pub complex: String,
}

impl Clone for ModelSettings {
    fn clone(&self) -> (r: Self)
        ensures
            r == *self,
    {
        ModelSettings {
            triage: self.triage.clone(),
            default: self.default.clone(),
            complex: self.complex.clone(),
        }
    }
}

impl Default for ModelSettings {
    fn default() -> (r: Self)
        ensures
            r.triage@ == "haiku"@,
            r.default@ == "sonnet"@,
            r.complex@ == "opus"@,
    {
        ModelSettings {
            triage: default_triage_model(),
            default: default_model(),
            complex: default_complex_model(),
        }
    }
}

/// The settings of a run.
#[derive(Debug)]
pub struct Settings {
    /// The program that runs the agent. Empty until it is configured.
    pub agent_command: String,
    pub parallel_workers: usize,
    pub auto_merge: AutoMergePolicy,
    pub models: ModelSettings,
    pub worker_tools: Vec<String>,
    pub triage_tools: Vec<String>,
    pub poll_interval_secs: u64,
    pub worktree_dir: String,
    pub state_file: String,
    pub max_review_retries: u32,
    pub triage_timeout_secs: u64,
    pub worker_timeout_secs: u64,
}

impl Clone for Settings {
    fn clone(&self) -> (r: Self)
        ensures
            r.agent_command == self.agent_command,
            r.parallel_workers == self.parallel_workers,
            r.auto_merge == self.auto_merge,
            r.models == self.models,
            r.worker_tools.deep_view() == self.worker_tools.deep_view(),
            r.triage_tools.deep_view() == self.triage_tools.deep_view(),
            r.poll_interval_secs == self.poll_interval_secs,
            r.worktree_dir == self.worktree_dir,
            r.state_file == self.state_file,
            r.max_review_retries == self.max_review_retries,
            r.triage_timeout_secs == self.triage_timeout_secs,
            r.worker_timeout_secs == self.worker_timeout_secs,
    {
        let worker_tools = self.worker_tools.clone();
        let triage_tools = self.triage_tools.clone();
        assert(worker_tools.deep_view() =~= self.worker_tools.deep_view());
        assert(triage_tools.deep_view() =~= self.triage_tools.deep_view());
        Settings {
            agent_command: self.agent_command.clone(),
            parallel_workers: self.parallel_workers,
            auto_merge: self.auto_merge,
            models: self.models.clone(),
            worker_tools,
            triage_tools,
            poll_interval_secs: self.poll_interval_secs,
            worktree_dir: self.worktree_dir.clone(),
            state_file: self.state_file.clone(),
            max_review_retries: self.max_review_retries,
            triage_timeout_secs: self.triage_timeout_secs,
            worker_timeout_secs: self.worker_timeout_secs,
        }
    }
}

impl Default for Settings {
    fn default() -> (r: Self)
        ensures
            r.agent_command@.len() == 0,
            r.parallel_workers == 4,
            r.auto_merge == AutoMergePolicy::TestsPassNoConflict,
            r.models.triage@ == "haiku"@,
            r.models.default@ == "sonnet"@,
            r.models.complex@ == "opus"@,
            r.worker_tools.deep_view() == seq![
                "Bash"@,
                "Read"@,
                "Write"@,
                "Edit"@,
                "Glob"@,
                "Grep"@,
            ],
            r.triage_tools.deep_view() == seq!["Read"@, "Glob"@, "Grep"@],
            r.poll_interval_secs == 300,
            r.worktree_dir@ == ".pfl-worktrees"@,
            r.state_file@ == spec_state_file(None),
            r.max_review_retries == 2,
            r.triage_timeout_secs == 600,
            r.worker_timeout_secs == 1800,
    {
        Settings {
            agent_command: String::new(),
            parallel_workers: default_parallel_workers(),
            auto_merge: default_auto_merge(),
            models: ModelSettings::default(),
            worker_tools: default_worker_tools(),
            triage_tools: default_triage_tools(),
            poll_interval_secs: default_poll_interval(),
            worktree_dir: default_worktree_dir(),
            state_file: default_state_file(None),
            max_review_retries: default_max_review_retries(),
            triage_timeout_secs: default_triage_timeout(),
            worker_timeout_secs: default_worker_timeout(),
        }
    }
}

/// The command that runs the tests of a repository that names none.
pub fn default_test_command() -> (r: String)
    ensures
        r@ == "cargo test"@,
{
    String::from_str("cargo test")
}

/// The label of the tasks of a repository that names none.
pub fn default_issue_label() -> (r: String)
    ensures
        r@ == "forge"@,
{
    String::from_str("forge")
}

/// The base branch of a repository that names none.
pub fn default_base_branch() -> (r: String)
    ensures
        r@ == "main"@,
{
    String::from_str("main")
}

/// How many invocations of the agent run at a time.
pub fn default_parallel_workers() -> (r: usize)
    ensures
        r == 4,
{
    4
}

/// When finished work is merged without a human.
pub fn default_auto_merge() -> (r: AutoMergePolicy)
    ensures
        r == AutoMergePolicy::TestsPassNoConflict,
{
    AutoMergePolicy::TestsPassNoConflict
}

/// The tools of a stage that changes files.
pub fn default_worker_tools() -> (r: Vec<String>)
    ensures
        r.deep_view() == seq!["Bash"@, "Read"@, "Write"@, "Edit"@, "Glob"@, "Grep"@],
{
    let mut tools: Vec<String> = Vec::new();
    tools.push(String::from_str("Bash"));
    tools.push(String::from_str("Read"));
    tools.push(String::from_str("Write"));
    tools.push(String::from_str("Edit"));
    tools.push(String::from_str("Glob"));
    tools.push(String::from_str("Grep"));
    assert(tools.deep_view() == seq!["Bash"@, "Read"@, "Write"@, "Edit"@, "Glob"@, "Grep"@]);
    tools
}

/// The tools of a stage that only reads.
pub fn default_triage_tools() -> (r: Vec<String>)
    ensures
        r.deep_view() == seq!["Read"@, "Glob"@, "Grep"@],
{
    let mut tools: Vec<String> = Vec::new();
    tools.push(String::from_str("Read"));
    tools.push(String::from_str("Glob"));
    tools.push(String::from_str("Grep"));
    assert(tools.deep_view() == seq!["Read"@, "Glob"@, "Grep"@]);
    tools
}

/// The seconds between two runs of the watch.
pub fn default_poll_interval() -> (r: u64)
    ensures
        r == 300,
{
    300
}

/// The directory of the sandboxes, below the repository.
pub fn default_worktree_dir() -> (r: String)
    ensures
        r@ == ".pfl-worktrees"@,
{
    String::from_str(".pfl-worktrees")
}

/// How often a rejected implementation is tried again.
pub fn default_max_review_retries() -> (r: u32)
    ensures
        r == 2,
{
    2
}

/// The seconds that a triage or review call may take.
pub fn default_triage_timeout() -> (r: u64)
    ensures
        r == 600,
{
    600
}

/// The seconds that an implement call may take.
pub fn default_worker_timeout() -> (r: u64)
    ensures
        r == 1800,
{
    1800
}

/// The tier of the triage.
pub fn default_triage_model() -> (r: String)
    ensures
        r@ == "haiku"@,
{
    String::from_str("haiku")
}

/// The tier of ordinary work.
pub fn default_model() -> (r: String)
    ensures
        r@ == "sonnet"@,
{
    String::from_str("sonnet")
}

/// The tier of complex work.
pub fn default_complex_model() -> (r: String)
    ensures
        r@ == "opus"@,
{
    String::from_str("opus")
}

/// `base` and `child` as one path: `child` alone where it starts at the root
/// or `base` is empty, and else `base`, a slash unless `base` ends in one,
/// and `child`.
pub open spec fn join_path(base: Seq<char>, child: Seq<char>) -> Seq<char> {
    if child.len() > 0 && child[0] == '/' {
        child
    } else if base.len() == 0 || base.last() == '/' {
        base + child
    } else {
        base + seq!['/'] + child
    }
}

/// `base` and `child` as one path.
pub fn path_join(base: &str, child: &str) -> (r: String)
    ensures
        r@ == join_path(base@, child@),
{
    let b = chars_of(base);
    let c = chars_of(child);
    if c.len() > 0 && c[0] == '/' {
        String::from_str(child)
    } else {
        let mut out = String::from_str(base);
        if b.len() > 0 && b[b.len() - 1] != '/' {
            proof {
                reveal_strlit("/");
            }
            assert("/"@ =~= seq!['/']);
            out.append("/");
        }
        out.append(child);
        out
    }
}

/// Where the state file lies: `.pfl-forge/state.yaml` below the home
/// directory, and below the working directory where no home is known.
pub open spec fn spec_state_file(home: Option<Seq<char>>) -> Seq<char> {
    let base = match home {
        Some(h) => h,
        None => "."@,
    };
    join_path(join_path(base, ".pfl-forge"@), "state.yaml"@)
}

/// Where the state file lies, given the home directory if one is known.
pub fn default_state_file(home: Option<&str>) -> (r: String)
    ensures
        r@ == spec_state_file(
            match home {
                Some(h) => Some(h@),
                None => None,
            },
        ),
{
    let base = match home {
        Some(h) => h,
        None => ".",
    };
    let dir = path_join(base, ".pfl-forge");
    path_join(dir.as_str(), "state.yaml")
}

/// One repository to work on.
#[derive(Debug)]
pub struct RepoConfig {
    pub name: String,
    pub path: String,
    pub github: String,
    pub test_command: String,
    pub docker_required: bool,
    pub issue_label: String,
    pub base_branch: String,
    pub extra_tools: Vec<String>,
}

impl Clone for RepoConfig {
    fn clone(&self) -> (r: Self)
        ensures
            r.name == self.name,
            r.path == self.path,
            r.github == self.github,
            r.test_command == self.test_command,
            r.docker_required == self.docker_required,
            r.issue_label == self.issue_label,
            r.base_branch == self.base_branch,
            r.extra_tools.deep_view() == self.extra_tools.deep_view(),
    {
        let extra_tools = self.extra_tools.clone();
        assert(extra_tools.deep_view() =~= self.extra_tools.deep_view());
        RepoConfig {
            name: self.name.clone(),
            path: self.path.clone(),
            github: self.github.clone(),
            test_command: self.test_command.clone(),
            docker_required: self.docker_required,
            issue_label: self.issue_label.clone(),
            base_branch: self.base_branch.clone(),
            extra_tools,
        }
    }
}

/// The one-character text that parts owner and repository.
pub open spec fn slash() -> Seq<char> {
    seq!['/']
}

/// `tools` with each text of `extra` added at the end that it does not hold yet.
pub open spec fn merge_tools(tools: Seq<Seq<char>>, extra: Seq<Seq<char>>) -> Seq<Seq<char>>
    decreases extra.len(),
{
    if extra.len() == 0 {
        tools
    } else {
        let merged = merge_tools(tools, extra.drop_last());
        if merged.contains(extra.last()) {
            merged
        } else {
            merged.push(extra.last())
        }
    }
}

/// Whether `tools` holds the text `tool`.
fn holds_tool(tools: &Vec<String>, tool: &String) -> (r: bool)
    ensures
        r == tools.deep_view().contains(tool@),
{
    let n = tools.len();
    let mut i: usize = 0;
    while i < n
        invariant
            n == tools@.len(),
            i <= n,
            forall|k: int| 0 <= k < i ==> tools.deep_view()[k] != tool@,
        decreases n - i,
    {
        if tools[i] == *tool {
            assert(tools.deep_view()[i as int] == tool@);
            return true;
        }
        i = i + 1;
    }
    false
}

impl RepoConfig {
    /// The tools of a worker in this repository: `base_tools`, then each of
    /// the repository's extra tools that is not among them yet.
    pub fn all_tools(&self, base_tools: &Vec<String>) -> (tools: Vec<String>)
        ensures
            tools.deep_view() == merge_tools(
                base_tools.deep_view(),
                self.extra_tools.deep_view(),
            ),
    {
        let mut tools: Vec<String> = base_tools.clone();
        assert(tools.deep_view() =~= base_tools.deep_view());
        let n = self.extra_tools.len();
        let mut i: usize = 0;
        assert(self.extra_tools.deep_view().take(0) == Seq::<Seq<char>>::empty());
        while i < n
            invariant
                n == self.extra_tools@.len(),
                i <= n,
                tools.deep_view() == merge_tools(
                    base_tools.deep_view(),
                    self.extra_tools.deep_view().take(i as int),
                ),
            decreases n - i,
        {
            let ghost before = tools.deep_view();
            assert(self.extra_tools.deep_view().take(i + 1).drop_last()
                == self.extra_tools.deep_view().take(i as int));
            assert(self.extra_tools.deep_view().take(i + 1).last() == self.extra_tools@[i as int]@);
            if !holds_tool(&tools, &self.extra_tools[i]) {
                let tool = self.extra_tools[i].clone();
                tools.push(tool);
                assert(tools.deep_view() == before.push(tool@));
            }
            i = i + 1;
        }
        assert(self.extra_tools.deep_view().take(n as int) == self.extra_tools.deep_view());
        tools
    }

    /// Whether the repository is named as owner, slash, repository.
    pub open spec fn has_owner(&self) -> bool {
        find_from(self.github@, slash(), 0) is Some
    }

    /// The owner: what stands before the first slash.
    pub open spec fn spec_owner(&self) -> Seq<char> {
        self.github@.take(find_from(self.github@, slash(), 0).unwrap())
    }

    /// The repository: what stands after the first slash.
    pub open spec fn spec_repo(&self) -> Seq<char> {
        self.github@.skip(find_from(self.github@, slash(), 0).unwrap() + 1)
    }

    /// Whether the repository is named as owner, slash, repository.
    pub fn names_owner(&self) -> (r: bool)
        ensures
            r == self.has_owner(),
    {
        let v = chars_of(self.github.as_str());
        let mut sep: Vec<char> = Vec::new();
        sep.push('/');
        assert(sep@ == slash());
        find(&v, &sep, 0).is_some()
    }

    /// The owner and the repository: what stands before and after the first
    /// slash.
    pub fn owner_repo(&self) -> (r: (&str, &str))
        requires
            self.has_owner(),
        ensures
            r.0@ == self.spec_owner(),
            r.1@ == self.spec_repo(),
    {
        let v = chars_of(self.github.as_str());
        let mut sep: Vec<char> = Vec::new();
        sep.push('/');
        assert(sep@ == slash());
        let n = v.len();
        let at = find(&v, &sep, 0).unwrap();
        assert(at + sep@.len() <= n && sep@.len() == 1);
        let owner = self.github.as_str().substring_char(0, at);
        let repo = self.github.as_str().substring_char(at + 1, n);
        (owner, repo)
    }
}

/// The whole configuration.
#[derive(Debug)]
pub struct Config {
    pub repos: Vec<RepoConfig>,
    pub settings: Settings,
}

/// The position of the first of `repos` from `from` on that is named `name`.
pub open spec fn repo_from(repos: Seq<RepoConfig>, name: Seq<char>, from: int) -> Option<int>
    decreases repos.len() - from,
{
    if from < 0 || from >= repos.len() {
        None
    } else if repos[from].name@ == name {
        Some(from)
    } else {
        repo_from(repos, name, from + 1)
    }
}

/// The position of the first of `repos` from `from` on that cannot be used,
/// given for each whether its path exists: one whose path does not exist, or
/// that is not named as owner, slash, repository.
pub open spec fn first_invalid(repos: Seq<RepoConfig>, path_exists: Seq<bool>, from: int) -> Option<
    int,
>
    decreases repos.len() - from,
{
    if from < 0 || from >= repos.len() {
        None
    } else if !exists_at(path_exists, from) || !repos[from].has_owner() {
        Some(from)
    } else {
        first_invalid(repos, path_exists, from + 1)
    }
}

/// Whether the path of the repository at `at` is known to exist: nothing is
/// known of a repository that `path_exists` does not reach.
pub open spec fn exists_at(path_exists: Seq<bool>, at: int) -> bool {
    0 <= at < path_exists.len() && path_exists[at]
}

/// What validation answers.
pub open spec fn spec_validate(repos: Seq<RepoConfig>, path_exists: Seq<bool>) -> Result<
    (),
    ForgeErrorView,
> {
    if repos.len() == 0 {
        Err(ForgeErrorView::Config("no repos configured"@))
    } else {
        match first_invalid(repos, path_exists, 0) {
            None => Ok(()),
            Some(i) => if !exists_at(path_exists, i) {
                Err(ForgeErrorView::Config("repo path does not exist: "@ + repos[i].path@))
            } else {
                Err(
                    ForgeErrorView::Config(
                        "github must be in owner/repo format: "@ + repos[i].github@,
                    ),
                )
            },
        }
    }
}

/// The mathematical content of an answer without a value.
pub open spec fn unit_view(r: Result<(), ForgeError>) -> Result<(), ForgeErrorView> {
    match r {
        Ok(()) => Ok(()),
        Err(e) => Err(e@),
    }
}

impl Config {
    /// Checks the configuration, given for each repository whether its path
    /// exists. There is at least one repository; the first repository whose
    /// path does not exist or that is not named as owner, slash, repository
    /// is reported, the path first.
    pub fn validate(&self, path_exists: &Vec<bool>) -> (r: Result<(), ForgeError>)
        ensures
            unit_view(r) == spec_validate(self.repos@, path_exists@),
    {
        if self.repos.len() == 0 {
            return Err(ForgeError::Config(String::from_str("no repos configured")));
        }
        let n = self.repos.len();
        let mut i: usize = 0;
        while i < n
            invariant
                n == self.repos@.len(),
                n > 0,
                i <= n,
                first_invalid(self.repos@, path_exists@, 0) == first_invalid(
                    self.repos@,
                    path_exists@,
                    i as int,
                ),
            decreases n - i,
        {
            if i >= path_exists.len() || !path_exists[i] {
                let mut message = String::from_str("repo path does not exist: ");
                message.append(self.repos[i].path.as_str());
                return Err(ForgeError::Config(message));
            }
            if !self.repos[i].names_owner() {
                let mut message = String::from_str("github must be in owner/repo format: ");
                message.append(self.repos[i].github.as_str());
                return Err(ForgeError::Config(message));
            }
            i = i + 1;
        }
        Ok(())
    }

    /// The first repository that is named `name`.
    pub fn find_repo(&self, name: &str) -> (r: Option<&RepoConfig>)
        ensures
            match r {
                Some(repo) => {
                    &&& repo_from(self.repos@, name@, 0) is Some
                    &&& *repo == self.repos@[repo_from(self.repos@, name@, 0).unwrap()]
                },
                None => repo_from(self.repos@, name@, 0) is None,
            },
    {
        let wanted = String::from_str(name);
        let n = self.repos.len();
        let mut i: usize = 0;
        while i < n
            invariant
                n == self.repos@.len(),
                i <= n,
                wanted@ == name@,
                repo_from(self.repos@, name@, 0) == repo_from(self.repos@, name@, i as int),
            decreases n - i,
        {
            if self.repos[i].name == wanted {
                return Some(&self.repos[i]);
            }
            i = i + 1;
        }
        None
    }
}

} // verus!
