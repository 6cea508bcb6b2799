//! Finding the tasks of a run: the files of local tasks, and the repository
//! that a record belongs to.

use crate::config::{Config, RepoConfig};
use crate::decimal::{parse_decimal, parse_u64};
use crate::status::Timestamp;
use crate::task::{ForgeIssue, ForgeIssueView, TaskSource};
use crate::text::{str_strip_suffix, strip_suffix};
use vstd::prelude::*;

verus! {

/// The task that the file named `name` states: the name ends in `.yaml`,
/// and what stands before that is a number.
pub open spec fn local_task_number(name: Seq<char>) -> Option<u64> {
    match strip_suffix(name, ".yaml"@) {
        Some(stem) => match parse_decimal(stem, u64::MAX as nat) {
            Some(n) => Some(n as u64),
            None => None,
        },
        None => None,
    }
}

/// The task that the file named `name` states.
pub fn local_task_file_number(name: &str) -> (r: Option<u64>)
    ensures
        r == local_task_number(name@),
{
    match str_strip_suffix(name, ".yaml") {
        Some(stem) => parse_u64(stem.as_str()),
        None => None,
    }
}

/// The task that a local file states, as a task of `repo`, found at `now`.
pub fn local_issue(
    repo: &RepoConfig,
    number: u64,
    title: String,
    body: String,
    labels: Vec<String>,
    now: Timestamp,
) -> (r: ForgeIssue)
    requires
        repo.has_owner(),
    ensures
        r@ == (ForgeIssueView {
            number,
            title: title@,
            body: body@,
            labels: labels.deep_view(),
            repo_name: repo.name@,
            owner: repo.spec_owner(),
            repo: repo.spec_repo(),
            created_at: now,
            source: TaskSource::Local,
        }),
{
    let (owner, name) = repo.owner_repo();
    ForgeIssue {
        number,
        title,
        body,
        labels,
        repo_name: repo.name.clone(),
        owner: String::from_str(owner),
        repo: String::from_str(name),
        created_at: now,
        source: TaskSource::Local,
    }
}

/// The position of the first of `repos` from `from` on whose owner and
/// repository are `full_repo`.
pub open spec fn github_from(repos: Seq<RepoConfig>, full_repo: Seq<char>, from: int) -> Option<int>
    decreases repos.len() - from,
{
    if from < 0 || from >= repos.len() {
        None
    } else if repos[from].has_owner() && repos[from].github@ == full_repo {
        Some(from)
    } else {
        github_from(repos, full_repo, from + 1)
    }
}

/// The first repository of `config` whose owner and repository are
/// `full_repo`: the one that a record of that repository belongs to.
pub fn find_repo_by_github<'a>(config: &'a Config, full_repo: &str) -> (r: Option<&'a RepoConfig>)
    ensures
        match r {
            Some(repo) => {
                &&& github_from(config.repos@, full_repo@, 0) is Some
                &&& *repo == config.repos@[github_from(config.repos@, full_repo@, 0).unwrap()]
            },
            None => github_from(config.repos@, full_repo@, 0) is None,
        },
{
    let wanted = String::from_str(full_repo);
    let n = config.repos.len();
    let mut i: usize = 0;
    while i < n
        invariant
            n == config.repos@.len(),
            i <= n,
            wanted@ == full_repo@,
            github_from(config.repos@, full_repo@, 0) == github_from(
                config.repos@,
                full_repo@,
                i as int,
            ),
        decreases n - i,
    {
        if config.repos[i].names_owner() && config.repos[i].github == wanted {
            return Some(&config.repos[i]);
        }
        i = i + 1;
    }
    None
}

} // verus!
