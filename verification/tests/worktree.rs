use pfl_forge::error::ForgeError;
use pfl_forge::git::{
    commit_count_args, delete_branch_args, diff_args, docker_args, docker_outcome, git_outcome,
    list_args, parse_commit_count, push_args, remove_args, split_words, test_command_parts, Rebase,
    RebaseAction, RebaseStage,
};
use pfl_forge::status::IssueStatus;
use pfl_forge::sweep::{removable_worktrees, sandbox_task, worktree_prefix};
use pfl_forge::tracker::StateTracker;
use pfl_forge::worktree::{parse_worktree_list, CreateAction, CreateEvent, CreateStage, Creation};

fn finished(success: bool, stderr: &str) -> CreateEvent {
    CreateEvent::Finished { success, stderr: stderr.into() }
}

fn git_args(action: CreateAction) -> Vec<String> {
    match action {
        CreateAction::Git(args) => args,
        other => panic!("unexpected: {:?}", other),
    }
}

#[test]
fn create_begins_with_a_probe() {
    let (creation, action) = Creation::create("/repo", ".wt", "forge/issue-3", "main");
    assert!(matches!(action, CreateAction::Probe));
    assert_eq!(creation.path(), "/repo/.wt/forge/issue-3");
    assert_eq!(creation.stage(), CreateStage::Probe);
}

#[test]
fn create_is_idempotent() {
    let (mut first, _) = Creation::create("/repo", ".wt", "forge/issue-3", "main");
    first.step(CreateEvent::Exists(false));
    first.step(CreateEvent::ParentCreated);
    first.step(finished(true, ""));
    assert!(matches!(first.step(finished(true, "")), CreateAction::Ready));

    let (mut second, _) = Creation::create("/repo", ".wt", "forge/issue-3", "main");
    assert_eq!(second.path(), first.path());
    // The sandbox exists now: nothing is made and nothing is run.
    assert!(matches!(second.step(CreateEvent::Exists(true)), CreateAction::Ready));
    assert_eq!(second.stage(), CreateStage::Done);
    assert_eq!(second.path(), first.path());
    assert!(matches!(second.step(finished(true, "")), CreateAction::Idle));
}

#[test]
fn create_on_a_new_branch() {
    let (mut c, _) = Creation::create("/repo", ".wt", "forge/issue-3", "main");
    assert!(matches!(c.step(CreateEvent::Exists(false)), CreateAction::MakeParent));
    assert_eq!(git_args(c.step(CreateEvent::ParentCreated)), vec!["fetch", "origin", "main"]);
    // A failed fetch does not stop the creation.
    assert_eq!(
        git_args(c.step(finished(false, "offline"))),
        vec!["worktree", "add", "-b", "forge/issue-3", "/repo/.wt/forge/issue-3", "origin/main"]
    );
    assert!(matches!(c.step(finished(true, "")), CreateAction::Ready));
    assert_eq!(c.stage(), CreateStage::Done);
}

#[test]
fn create_on_a_branch_that_exists() {
    let (mut c, _) = Creation::create("/repo", ".wt", "forge/issue-3", "main");
    c.step(CreateEvent::Exists(false));
    c.step(CreateEvent::ParentCreated);
    c.step(finished(true, ""));
    let args = git_args(c.step(finished(false, "fatal: a branch named 'x' already exists")));
    assert_eq!(args, vec!["worktree", "add", "/repo/.wt/forge/issue-3", "forge/issue-3"]);
    assert!(matches!(c.step(finished(true, "")), CreateAction::Ready));
}

#[test]
fn create_failures() {
    let (mut c, _) = Creation::create("/repo", ".wt", "b", "main");
    c.step(CreateEvent::Exists(false));
    match c.step(CreateEvent::ParentFailed("denied".into())) {
        CreateAction::Failed(ForgeError::Io(m)) => assert_eq!(m, "denied"),
        other => panic!("unexpected: {:?}", other),
    }

    let (mut c, _) = Creation::create("/repo", ".wt", "b", "main");
    c.step(CreateEvent::Exists(false));
    c.step(CreateEvent::ParentCreated);
    c.step(finished(true, ""));
    match c.step(finished(false, "fatal: bad ref")) {
        CreateAction::Failed(ForgeError::Git(m)) => assert_eq!(m, "worktree add failed: fatal: bad ref"),
        other => panic!("unexpected: {:?}", other),
    }

    let (mut c, _) = Creation::create("/repo", ".wt", "b", "main");
    c.step(CreateEvent::Exists(false));
    c.step(CreateEvent::ParentCreated);
    c.step(finished(true, ""));
    c.step(finished(false, "already exists"));
    match c.step(finished(false, "locked")) {
        CreateAction::Failed(ForgeError::Git(m)) => assert_eq!(m, "worktree add failed: locked"),
        other => panic!("unexpected: {:?}", other),
    }
    assert_eq!(c.stage(), CreateStage::Done);
}

#[test]
fn create_ignores_events_out_of_turn() {
    let (mut c, _) = Creation::create("/repo", ".wt", "b", "main");
    assert!(matches!(c.step(CreateEvent::ParentCreated), CreateAction::Idle));
    assert!(matches!(c.step(finished(true, "")), CreateAction::Idle));
    assert_eq!(c.stage(), CreateStage::Probe);
}

#[test]
fn worktree_list_is_parsed() {
    let out = "worktree /repo\nHEAD abc\nbranch refs/heads/main\n\nworktree /repo/.wt/forge/issue-3\nHEAD def\r\nworktree \nworktrees x\n";
    assert_eq!(parse_worktree_list(out), vec!["/repo", "/repo/.wt/forge/issue-3", ""]);
    assert!(parse_worktree_list("").is_empty());
}

#[test]
fn git_arguments() {
    assert_eq!(push_args("b"), vec!["push", "-u", "origin", "b"]);
    assert_eq!(commit_count_args("main", "HEAD"), vec!["rev-list", "--count", "origin/main..HEAD"]);
    assert_eq!(delete_branch_args("b"), vec!["branch", "-D", "b"]);
    assert_eq!(remove_args("/p"), vec!["worktree", "remove", "--force", "/p"]);
    assert_eq!(list_args(), vec!["worktree", "list", "--porcelain"]);
    assert_eq!(diff_args("main"), vec!["diff", "origin/main...HEAD"]);
    assert_eq!(docker_args(), vec!["compose", "ps", "--status", "running"]);
}

#[test]
fn git_outcomes() {
    assert!(git_outcome("push", true, "warning").is_ok());
    match git_outcome("push", false, "rejected") {
        Err(ForgeError::Git(m)) => assert_eq!(m, "push failed: rejected"),
        other => panic!("unexpected: {:?}", other),
    }
    assert!(docker_outcome(true).is_ok());
    match docker_outcome(false) {
        Err(ForgeError::Git(m)) => assert_eq!(m, "docker compose is not running"),
        other => panic!("unexpected: {:?}", other),
    }
}

#[test]
fn commit_count_is_parsed() {
    assert_eq!(parse_commit_count("3\n"), Some(3));
    assert_eq!(parse_commit_count("  0 "), Some(0));
    assert_eq!(parse_commit_count("4294967295"), Some(u32::MAX));
    assert_eq!(parse_commit_count("4294967296"), None);
    assert_eq!(parse_commit_count(""), None);
    assert_eq!(parse_commit_count("three"), None);
    assert_eq!(parse_commit_count("-1"), None);
    assert_eq!(parse_commit_count("1 2"), None);
}

#[test]
fn words_of_a_command() {
    assert_eq!(split_words("cargo test  --all\t-q\n"), vec!["cargo", "test", "--all", "-q"]);
    assert!(split_words("  \n ").is_empty());
    assert!(split_words("").is_empty());
    assert_eq!(split_words("one"), vec!["one"]);
    let (program, args) = test_command_parts("npm run test").unwrap();
    assert_eq!(program, "npm");
    assert_eq!(args, vec!["run", "test"]);
    assert!(test_command_parts("   ").is_none());
}

#[test]
fn rebase_that_is_clean() {
    let (mut r, action) = Rebase::rebase("main");
    assert!(matches!(action, RebaseAction::Git(ref a) if a == &vec!["fetch", "origin", "main"]));
    match r.step(false, "offline") {
        RebaseAction::Git(args) => assert_eq!(args, vec!["rebase", "origin/main"]),
        other => panic!("unexpected: {:?}", other),
    }
    assert!(matches!(r.step(true, ""), RebaseAction::Clean));
    assert_eq!(r.stage(), RebaseStage::Done);
    assert!(matches!(r.step(true, ""), RebaseAction::Idle));
}

#[test]
fn rebase_conflict_is_aborted_and_reported() {
    let (mut r, _) = Rebase::rebase("main");
    r.step(true, "");
    match r.step(false, "CONFLICT (content): a.rs") {
        RebaseAction::Git(args) => assert_eq!(args, vec!["rebase", "--abort"]),
        other => panic!("unexpected: {:?}", other),
    }
    match r.step(true, "") {
        RebaseAction::Conflict(ForgeError::Git(m)) => {
            assert_eq!(m, "rebase conflict: CONFLICT (content): a.rs")
        }
        other => panic!("unexpected: {:?}", other),
    }
    assert_eq!(r.stage(), RebaseStage::Done);
}

#[test]
fn sandbox_task_is_the_number_after_the_last_marker() {
    assert_eq!(sandbox_task("/repo/.wt/forge/issue-42"), Some(42));
    assert_eq!(sandbox_task("/issue-1/forge/issue-7"), Some(7));
    assert_eq!(sandbox_task("/repo/.wt/forge/issue-"), None);
    assert_eq!(sandbox_task("/repo/.wt/forge/issue-x"), None);
    assert_eq!(sandbox_task("/repo/.wt/forge/other"), None);
    assert_eq!(sandbox_task("17"), Some(17));
    assert_eq!(sandbox_task(""), None);
}

#[test]
fn sweep_takes_terminal_sandboxes_of_the_repo() {
    let mut tracker = StateTracker::new();
    tracker.set_status("o/r", 1, "a", IssueStatus::Success);
    tracker.set_status("o/r", 2, "b", IssueStatus::Executing);
    tracker.set_status("o/r", 3, "c", IssueStatus::Error);
    tracker.set_status("o/x", 4, "d", IssueStatus::Success);
    let prefix = worktree_prefix("/repo", ".wt");
    assert_eq!(prefix, "/repo/.wt/forge/");
    let worktrees: Vec<String> = [
        "/repo",
        "/repo/.wt/forge/issue-1",
        "/repo/.wt/forge/issue-2",
        "/repo/.wt/forge/issue-3",
        "/repo/.wt/forge/issue-4",
        "/repo/.wt/forge/issue-9",
        "/elsewhere/forge/issue-1",
        "/repo/.wt/forge/misc",
    ]
    .iter()
    .map(|s| s.to_string())
    .collect();
    assert_eq!(
        removable_worktrees(&worktrees, &prefix, "o/r", &tracker),
        vec!["/repo/.wt/forge/issue-1", "/repo/.wt/forge/issue-3"]
    );
}
