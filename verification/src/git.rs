//! What is asked of git and of the other commands, and how their answers
//! are read.

use crate::decimal::{parse_decimal, parse_u64};
use crate::error::{ForgeError, ForgeErrorView};
use crate::text::{char_is_whitespace, chars_of, is_whitespace, substring, trim, trimmed};
use vstd::prelude::*;

verus! {

/// The arguments that push `branch` and set its upstream.
pub fn push_args(branch: &str) -> (args: Vec<String>)
    ensures
        args.deep_view() == seq!["push"@, "-u"@, "origin"@, branch@],
{
    let mut args: Vec<String> = Vec::new();
    args.push(String::from_str("push"));
    args.push(String::from_str("-u"));
    args.push(String::from_str("origin"));
    args.push(String::from_str(branch));
    assert(args.deep_view() == seq!["push"@, "-u"@, "origin"@, branch@]);
    args
}

/// The arguments that count the commits of `branch` since `base_branch`.
pub fn commit_count_args(base_branch: &str, branch: &str) -> (args: Vec<String>)
    ensures
        args.deep_view() == seq![
            "rev-list"@,
            "--count"@,
            "origin/"@ + base_branch@ + ".."@ + branch@,
        ],
{
    let mut range = String::from_str("origin/");
    range.append(base_branch);
    range.append("..");
    range.append(branch);
    let mut args: Vec<String> = Vec::new();
    args.push(String::from_str("rev-list"));
    args.push(String::from_str("--count"));
    args.push(range);
    assert(args.deep_view() == seq![
        "rev-list"@,
        "--count"@,
        "origin/"@ + base_branch@ + ".."@ + branch@,
    ]);
    args
}

/// The arguments that delete `branch`, merged or not.
pub fn delete_branch_args(branch: &str) -> (args: Vec<String>)
    ensures
        args.deep_view() == seq!["branch"@, "-D"@, branch@],
{
    let mut args: Vec<String> = Vec::new();
    args.push(String::from_str("branch"));
    args.push(String::from_str("-D"));
    args.push(String::from_str(branch));
    assert(args.deep_view() == seq!["branch"@, "-D"@, branch@]);
    args
}

/// The arguments that remove the sandbox at `worktree_path`.
pub fn remove_args(worktree_path: &str) -> (args: Vec<String>)
    ensures
        args.deep_view() == seq!["worktree"@, "remove"@, "--force"@, worktree_path@],
{
    let mut args: Vec<String> = Vec::new();
    args.push(String::from_str("worktree"));
    args.push(String::from_str("remove"));
    args.push(String::from_str("--force"));
    args.push(String::from_str(worktree_path));
    assert(args.deep_view() == seq!["worktree"@, "remove"@, "--force"@, worktree_path@]);
    args
}

/// The arguments that list the sandboxes.
pub fn list_args() -> (args: Vec<String>)
    ensures
        args.deep_view() == seq!["worktree"@, "list"@, "--porcelain"@],
{
    let mut args: Vec<String> = Vec::new();
    args.push(String::from_str("worktree"));
    args.push(String::from_str("list"));
    args.push(String::from_str("--porcelain"));
    assert(args.deep_view() == seq!["worktree"@, "list"@, "--porcelain"@]);
    args
}

/// The arguments that print what changed since `base_branch`.
pub fn diff_args(base_branch: &str) -> (args: Vec<String>)
    ensures
        args.deep_view() == seq!["diff"@, "origin/"@ + base_branch@ + "...HEAD"@],
{
    let mut range = String::from_str("origin/");
    range.append(base_branch);
    range.append("...HEAD");
    let mut args: Vec<String> = Vec::new();
    args.push(String::from_str("diff"));
    args.push(range);
    assert(args.deep_view() == seq!["diff"@, "origin/"@ + base_branch@ + "...HEAD"@]);
    args
}

/// The arguments that ask docker which containers run.
pub fn docker_args() -> (args: Vec<String>)
    ensures
        args.deep_view() == seq!["compose"@, "ps"@, "--status"@, "running"@],
{
    let mut args: Vec<String> = Vec::new();
    args.push(String::from_str("compose"));
    args.push(String::from_str("ps"));
    args.push(String::from_str("--status"));
    args.push(String::from_str("running"));
    assert(args.deep_view() == seq!["compose"@, "ps"@, "--status"@, "running"@]);
    args
}

/// The mathematical content of an answer without a value.
pub open spec fn done_view(r: Result<(), ForgeError>) -> Result<(), ForgeErrorView> {
    match r {
        Ok(()) => Ok(()),
        Err(e) => Err(e@),
    }
}

/// What a git command that ended is answered with: a failure names what was
/// tried, and what git printed as errors.
pub open spec fn spec_git_outcome(what: Seq<char>, success: bool, stderr: Seq<char>) -> Result<
    (),
    ForgeErrorView,
> {
    if success {
        Ok(())
    } else {
        Err(ForgeErrorView::Git(what + " failed: "@ + stderr))
    }
}

/// What a git command that ended is answered with.
pub fn git_outcome(what: &str, success: bool, stderr: &str) -> (r: Result<(), ForgeError>)
    ensures
        done_view(r) == spec_git_outcome(what@, success, stderr@),
{
    if success {
        Ok(())
    } else {
        let mut message = String::from_str(what);
        message.append(" failed: ");
        message.append(stderr);
        Err(ForgeError::Git(message))
    }
}

/// What the docker check is answered with.
pub fn docker_outcome(success: bool) -> (r: Result<(), ForgeError>)
    ensures
        done_view(r) == if success {
            Ok::<(), ForgeErrorView>(())
        } else {
            Err(ForgeErrorView::Git("docker compose is not running"@))
        },
{
    if success {
        Ok(())
    } else {
        Err(ForgeError::Git(String::from_str("docker compose is not running")))
    }
}

/// The number of commits that git printed: the trimmed text is a number of
/// at most 32 bits.
pub open spec fn spec_commit_count(stdout: Seq<char>) -> Option<u32> {
    match parse_decimal(trim(stdout), u32::MAX as nat) {
        Some(n) => Some(n as u32),
        None => None,
    }
}

/// The number of commits that git printed.
pub fn parse_commit_count(stdout: &str) -> (r: Option<u32>)
    ensures
        r == spec_commit_count(stdout@),
{
    let text = trimmed(stdout);
    match parse_u64(text.as_str()) {
        Some(n) => if n <= u32::MAX as u64 {
            Some(n as u32)
        } else {
            None
        },
        None => None,
    }
}

/// Where the word that begins at `pos` ends: at the next white space, or at
/// the end of `s`.
pub open spec fn word_end(s: Seq<char>, pos: int) -> int
    decreases s.len() - pos,
{
    if pos < 0 || pos >= s.len() || is_whitespace(s[pos]) {
        pos
    } else {
        word_end(s, pos + 1)
    }
}

/// A word ends at or behind its beginning, within the text.
pub proof fn lemma_word_end(s: Seq<char>, pos: int)
    requires
        0 <= pos <= s.len(),
    ensures
        pos <= word_end(s, pos) <= s.len(),
        pos < s.len() && !is_whitespace(s[pos]) ==> pos < word_end(s, pos),
    decreases s.len() - pos,
{
    if pos < s.len() && !is_whitespace(s[pos]) {
        lemma_word_end(s, pos + 1);
    }
}

/// The words of `s` from `pos` on.
pub open spec fn words_from(s: Seq<char>, pos: int) -> Seq<Seq<char>>
    decreases s.len() - pos,
{
    if pos < 0 || pos >= s.len() {
        Seq::empty()
    } else if is_whitespace(s[pos]) {
        words_from(s, pos + 1)
    } else {
        proof {
            lemma_word_end(s, pos);
        }
        seq![s.subrange(pos, word_end(s, pos))] + words_from(s, word_end(s, pos))
    }
}

/// The words of `s`: its longest stretches without white space.
pub open spec fn words(s: Seq<char>) -> Seq<Seq<char>> {
    words_from(s, 0)
}

/// The words of `s`.
pub fn split_words(s: &str) -> (out: Vec<String>)
    ensures
        out.deep_view() == words(s@),
{
    let v = chars_of(s);
    let n = v.len();
    let mut out: Vec<String> = Vec::new();
    let mut pos: usize = 0;
    assert(out.deep_view() == Seq::<Seq<char>>::empty());
    while pos < n
        invariant
            v@ == s@,
            n == v@.len(),
            pos <= n,
            words(s@) == out.deep_view() + words_from(s@, pos as int),
        decreases n - pos,
    {
        if char_is_whitespace(v[pos]) {
            pos = pos + 1;
        } else {
            let mut end: usize = pos + 1;
            proof {
                lemma_word_end(s@, pos as int);
            }
            while end < n && !char_is_whitespace(v[end])
                invariant
                    v@ == s@,
                    n == v@.len(),
                    pos < end <= n,
                    word_end(s@, pos as int) == word_end(s@, end as int),
                decreases n - end,
            {
                end = end + 1;
            }
            let ghost before = out.deep_view();
            let word = substring(s, pos, end);
            out.push(word);
            assert(out.deep_view() == before.push(word@));
            assert(before.push(word@) + words_from(s@, end as int) == before + (seq![word@]
                + words_from(s@, end as int)));
            pos = end;
        }
    }
    assert(words_from(s@, pos as int) == Seq::<Seq<char>>::empty());
    assert(out.deep_view() + Seq::<Seq<char>>::empty() == out.deep_view());
    out
}

/// The program of a test command and its arguments: the first word, and the
/// words after it. A command without a word has neither.
pub fn test_command_parts(test_command: &str) -> (r: Option<(String, Vec<String>)>)
    ensures
        match r {
            Some((program, args)) => {
                &&& words(test_command@).len() > 0
                &&& program@ == words(test_command@)[0]
                &&& args.deep_view() == words(test_command@).drop_first()
            },
            None => words(test_command@).len() == 0,
        },
{
    let mut all = split_words(test_command);
    if all.len() == 0 {
        return None;
    }
    let ghost whole = all.deep_view();
    let program = all.remove(0);
    assert(all.deep_view() == whole.drop_first());
    Some((program, all))
}

/// What a rebase waits for.
#[derive(Debug, Clone, Copy, PartialEq, Eq, Structural)]
pub enum RebaseStage {
    /// The end of the fetch of the base branch.
    Fetch,
    /// The end of the rebase itself.
    Rebase,
    /// The end of the abort after a conflict.
    Abort,
    /// Nothing: the rebase has ended.
    Done,
}

/// What the caller of a rebase has to do next.
#[derive(Debug)]
pub enum RebaseAction {
    /// Run git in the sandbox with these arguments.
    Git(Vec<String>),
    /// The branch now sits on the base branch.
    Clean,
    /// The rebase met a conflict and was aborted: the sandbox is as it was.
    Conflict(ForgeError),
    /// The event did not apply: nothing changes.
    Idle,
}

/// The mathematical content of a [`RebaseAction`].
pub enum RebaseActionView {
    Git(Seq<Seq<char>>),
    Clean,
    Conflict(ForgeErrorView),
    Idle,
}

impl DeepView for RebaseAction {
    type V = RebaseActionView;

    open spec fn deep_view(&self) -> RebaseActionView {
        match self {
            RebaseAction::Git(args) => RebaseActionView::Git(args.deep_view()),
            RebaseAction::Clean => RebaseActionView::Clean,
            RebaseAction::Conflict(e) => RebaseActionView::Conflict(e@),
            RebaseAction::Idle => RebaseActionView::Idle,
        }
    }
}

impl View for RebaseAction {
    type V = RebaseActionView;

    open spec fn view(&self) -> RebaseActionView {
        self.deep_view()
    }
}

/// The mathematical content of a [`Rebase`].
pub struct RebaseView {
    pub base_branch: Seq<char>,
    pub stage: RebaseStage,
    pub conflict: Seq<char>,
}

impl RebaseView {
    /// The arguments that fetch the base branch.
    pub open spec fn fetch_args(self) -> Seq<Seq<char>> {
        seq!["fetch"@, "origin"@, self.base_branch]
    }

    /// The arguments that rebase onto the base branch.
    pub open spec fn rebase_args(self) -> Seq<Seq<char>> {
        seq!["rebase"@, "origin/"@ + self.base_branch]
    }

    /// The arguments that abort a rebase.
    pub open spec fn abort_args() -> Seq<Seq<char>> {
        seq!["rebase"@, "--abort"@]
    }

    /// The rebase after a git command ended, and the action that follows.
    ///
    /// After the fetch, whether or not it succeeded, the branch is rebased. A
    /// rebase that fails is aborted, never resolved, and then reported as a
    /// conflict with what git printed when it failed.
    pub open spec fn step(self, success: bool, stderr: Seq<char>) -> (RebaseView, RebaseActionView) {
        match self.stage {
            RebaseStage::Fetch => (
                RebaseView { stage: RebaseStage::Rebase, ..self },
                RebaseActionView::Git(self.rebase_args()),
            ),
            RebaseStage::Rebase => if success {
                (RebaseView { stage: RebaseStage::Done, ..self }, RebaseActionView::Clean)
            } else {
                (
                    RebaseView { stage: RebaseStage::Abort, conflict: stderr, ..self },
                    RebaseActionView::Git(RebaseView::abort_args()),
                )
            },
            RebaseStage::Abort => (
                RebaseView { stage: RebaseStage::Done, ..self },
                RebaseActionView::Conflict(
                    ForgeErrorView::Git("rebase conflict: "@ + self.conflict),
                ),
            ),
            RebaseStage::Done => (self, RebaseActionView::Idle),
        }
    }
}

/// A rebase asks git for nothing but to rebase and to abort: it never
/// resolves a conflict, never resets and never pushes.
pub proof fn lemma_rebase_asks_little(rebase: RebaseView, success: bool, stderr: Seq<char>)
    ensures
        match rebase.step(success, stderr).1 {
            RebaseActionView::Git(args) => args == rebase.rebase_args() || args
                == RebaseView::abort_args(),
            _ => true,
        },
        rebase.stage is Rebase && !success ==> rebase.step(success, stderr).1
            == RebaseActionView::Git(RebaseView::abort_args()),
{
}

/// The rebase of one sandbox onto its base branch.
#[derive(Debug)]
pub struct Rebase {
    base_branch: String,
    stage: RebaseStage,
    conflict: String,
}

impl View for Rebase {
    type V = RebaseView;

    closed spec fn view(&self) -> RebaseView {
        RebaseView { base_branch: self.base_branch@, stage: self.stage, conflict: self.conflict@ }
    }
}

impl Rebase {
    /// Begins the rebase onto `base_branch`. The first action is to fetch it.
    pub fn rebase(base_branch: &str) -> (r: (Rebase, RebaseAction))
        ensures
            r.0@ == (RebaseView {
                base_branch: base_branch@,
                stage: RebaseStage::Fetch,
                conflict: Seq::empty(),
            }),
            r.1@ == RebaseActionView::Git(r.0@.fetch_args()),
    {
        let mut args: Vec<String> = Vec::new();
        args.push(String::from_str("fetch"));
        args.push(String::from_str("origin"));
        args.push(String::from_str(base_branch));
        assert(args.deep_view() == seq!["fetch"@, "origin"@, base_branch@]);
        let rebase = Rebase {
            base_branch: String::from_str(base_branch),
            stage: RebaseStage::Fetch,
            conflict: String::new(),
        };
        (rebase, RebaseAction::Git(args))
    }

    /// What the rebase waits for.
    pub fn stage(&self) -> (r: RebaseStage)
        ensures
            r == self@.stage,
    {
        self.stage
    }

    /// Takes the end of the last git command, and answers with the next action.
    pub fn step(&mut self, success: bool, stderr: &str) -> (action: RebaseAction)
        ensures
            (final(self)@, action@) == old(self)@.step(success, stderr@),
    {
        match self.stage {
            RebaseStage::Fetch => {
                let mut onto = String::from_str("origin/");
                onto.append(self.base_branch.as_str());
                let mut args: Vec<String> = Vec::new();
                args.push(String::from_str("rebase"));
                args.push(onto);
                assert(args.deep_view() == self@.rebase_args());
                self.stage = RebaseStage::Rebase;
                RebaseAction::Git(args)
            },
            RebaseStage::Rebase => {
                if success {
                    self.stage = RebaseStage::Done;
                    RebaseAction::Clean
                } else {
                    let mut args: Vec<String> = Vec::new();
                    args.push(String::from_str("rebase"));
                    args.push(String::from_str("--abort"));
                    assert(args.deep_view() == RebaseView::abort_args());
                    self.stage = RebaseStage::Abort;
                    self.conflict = String::from_str(stderr);
                    RebaseAction::Git(args)
                }
            },
            RebaseStage::Abort => {
                let mut message = String::from_str("rebase conflict: ");
                message.append(self.conflict.as_str());
                self.stage = RebaseStage::Done;
                RebaseAction::Conflict(ForgeError::Git(message))
            },
            RebaseStage::Done => RebaseAction::Idle,
        }
    }
}

} // verus!
