//! The sweep that clears away the sandboxes of tasks that have reached a
//! terminal status.

use crate::config::{join_path, path_join};
use crate::decimal::{parse_decimal, parse_u64};
use crate::status::IssueStateView;
use crate::text::{chars_of, occurs, occurs_at, starts_with, substring};
use crate::tracker::{lookup, StateTracker};
use vstd::prelude::*;

verus! {

/// What the path of every sandbox of a repository begins with.
pub open spec fn sandbox_prefix(repo_path: Seq<char>, worktree_dir: Seq<char>) -> Seq<char> {
    join_path(repo_path, worktree_dir) + "/forge/"@
}

/// What the path of every sandbox of a repository begins with.
pub fn worktree_prefix(repo_path: &str, worktree_dir: &str) -> (r: String)
    ensures
        r@ == sandbox_prefix(repo_path@, worktree_dir@),
{
    let mut out = path_join(repo_path, worktree_dir);
    out.append("/forge/");
    out
}

/// The greatest position up to `from` at which `needle` stands in `hay`.
pub open spec fn find_back(hay: Seq<char>, needle: Seq<char>, from: int) -> Option<int>
    decreases from + 1,
{
    if from < 0 {
        None
    } else if occurs_at(hay, needle, from) {
        Some(from)
    } else {
        find_back(hay, needle, from - 1)
    }
}

/// What follows the last `needle` in `s`; all of `s` where it holds none.
pub open spec fn after_last(s: Seq<char>, needle: Seq<char>) -> Seq<char> {
    match find_back(s, needle, s.len() - needle.len()) {
        Some(i) => s.skip(i + needle.len()),
        None => s,
    }
}

/// The task that the sandbox at `path` belongs to: the number that follows
/// the last `issue-` in the path.
pub open spec fn sandbox_number(path: Seq<char>) -> Option<u64> {
    match parse_decimal(after_last(path, "issue-"@), u64::MAX as nat) {
        Some(n) => Some(n as u64),
        None => None,
    }
}

/// The task that the sandbox at `path` belongs to.
pub fn sandbox_task(path: &str) -> (r: Option<u64>)
    ensures
        r == sandbox_number(path@),
{
    let v = chars_of(path);
    let p = chars_of("issue-");
    let n = v.len();
    let m = p.len();
    if m > n {
        return parse_u64(path);
    }
    let mut i: usize = n - m;
    loop
        invariant
            v@ == path@,
            p@ == "issue-"@,
            n == v@.len(),
            m == p@.len(),
            i + m <= n,
            find_back(path@, "issue-"@, n - m) == find_back(path@, "issue-"@, i as int),
        decreases i,
    {
        if occurs(&v, &p, i) {
            let rest = substring(path, i + m, n);
            assert(path@.subrange(i + m, n as int) == path@.skip(i + m));
            return parse_u64(rest.as_str());
        }
        if i == 0 {
            assert(find_back(path@, "issue-"@, -1) is None);
            return parse_u64(path);
        }
        i = i - 1;
    }
}

/// Whether the sandbox at `path` may be removed: it lies where the
/// sandboxes of the repository lie, it belongs to a task, and the state
/// store holds a terminal status for that task.
pub open spec fn is_removable(
    path: Seq<char>,
    prefix: Seq<char>,
    full_repo: Seq<char>,
    records: Seq<IssueStateView>,
) -> bool {
    &&& prefix.is_prefix_of(path)
    &&& sandbox_number(path) is Some
    &&& match lookup(records, full_repo, sandbox_number(path).unwrap()) {
        Some(record) => record.status.is_terminal(),
        None => false,
    }
}

/// The sandboxes of `worktrees` that may be removed, in their order.
pub open spec fn removable(
    worktrees: Seq<Seq<char>>,
    prefix: Seq<char>,
    full_repo: Seq<char>,
    records: Seq<IssueStateView>,
) -> Seq<Seq<char>>
    decreases worktrees.len(),
{
    if worktrees.len() == 0 {
        Seq::empty()
    } else {
        let rest = removable(worktrees.drop_last(), prefix, full_repo, records);
        if is_removable(worktrees.last(), prefix, full_repo, records) {
            rest.push(worktrees.last())
        } else {
            rest
        }
    }
}

/// The sandboxes of `worktrees` that the sweep removes: those of the
/// repository whose task has reached a terminal status.
pub fn removable_worktrees(
    worktrees: &Vec<String>,
    prefix: &str,
    full_repo: &str,
    tracker: &StateTracker,
) -> (r: Vec<String>)
    ensures
        r.deep_view() == removable(worktrees.deep_view(), prefix@, full_repo@, tracker@),
{
    let start = chars_of(prefix);
    let mut out: Vec<String> = Vec::new();
    let n = worktrees.len();
    let mut i: usize = 0;
    assert(worktrees.deep_view().take(0) == Seq::<Seq<char>>::empty());
    assert(out.deep_view() == Seq::<Seq<char>>::empty());
    while i < n
        invariant
            n == worktrees@.len(),
            i <= n,
            start@ == prefix@,
            out.deep_view() == removable(
                worktrees.deep_view().take(i as int),
                prefix@,
                full_repo@,
                tracker@,
            ),
        decreases n - i,
    {
        let ghost before = out.deep_view();
        assert(worktrees.deep_view().take(i + 1).drop_last() == worktrees.deep_view().take(
            i as int,
        ));
        assert(worktrees.deep_view().take(i + 1).last() == worktrees@[i as int]@);
        let path = chars_of(worktrees[i].as_str());
        if starts_with(&path, &start) {
            if let Some(number) = sandbox_task(worktrees[i].as_str()) {
                if tracker.is_terminal(full_repo, number) {
                    let kept = worktrees[i].clone();
                    out.push(kept);
                    assert(out.deep_view() == before.push(kept@));
                }
            }
        }
        i = i + 1;
    }
    assert(worktrees.deep_view().take(n as int) == worktrees.deep_view());
    out
}

} // verus!
