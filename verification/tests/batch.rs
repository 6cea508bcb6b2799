use pfl_forge::batch::select_batch;
use pfl_forge::channel::Clarifications;
use pfl_forge::config::{Config, RepoConfig, Settings};
use pfl_forge::fetch::{find_repo_by_github, local_issue, local_task_file_number};
use pfl_forge::status::{IssueStatus, Timestamp};
use pfl_forge::task::{ForgeIssue, TaskSource};
use pfl_forge::tracker::StateTracker;

fn issue(repo_name: &str, number: u64) -> ForgeIssue {
    ForgeIssue {
        number,
        title: format!("task {}", number),
        body: String::new(),
        labels: vec![],
        repo_name: repo_name.into(),
        owner: "acme".into(),
        repo: repo_name.into(),
        created_at: Timestamp { secs: 0, nanos: 0 },
        source: TaskSource::GitHub,
    }
}

fn numbers(batch: &Vec<ForgeIssue>) -> Vec<(String, u64)> {
    batch.iter().map(|i| (i.repo_name.clone(), i.number)).collect()
}

fn tracker_with_every_status() -> StateTracker {
    let mut tracker = StateTracker::new();
    let statuses = [
        IssueStatus::Pending,
        IssueStatus::Triaging,
        IssueStatus::Skipped,
        IssueStatus::NeedsClarification,
        IssueStatus::Executing,
        IssueStatus::Success,
        IssueStatus::TestFailure,
        IssueStatus::Error,
        IssueStatus::PrCreated,
    ];
    for (i, status) in statuses.iter().enumerate() {
        tracker.set_status("acme/web", i as u64 + 1, "t", *status);
    }
    tracker
}

fn candidates() -> Vec<ForgeIssue> {
    (1..=10).map(|n| issue("web", n)).collect()
}

#[test]
fn a_plain_run_takes_what_is_not_terminal() {
    let tracker = tracker_with_every_status();
    let batch = select_batch(&candidates(), &tracker, &vec![], false, None);
    let taken: Vec<u64> = batch.iter().map(|i| i.number).collect();
    // Pending, Triaging, Executing, and the task without a record.
    assert_eq!(taken, vec![1, 2, 5, 10]);
}

#[test]
fn a_resume_also_takes_failed_tasks() {
    let tracker = tracker_with_every_status();
    let batch = select_batch(&candidates(), &tracker, &vec![], true, None);
    let taken: Vec<u64> = batch.iter().map(|i| i.number).collect();
    assert_eq!(taken, vec![1, 2, 5, 7, 8, 10]);
}

#[test]
fn success_is_never_taken_up_again() {
    let mut tracker = StateTracker::new();
    tracker.set_status("acme/web", 6, "done", IssueStatus::Success);
    let mut channel = Clarifications::new();
    channel.write_answer(6, "an answer changes nothing");
    let channels = vec![("web".to_string(), channel)];
    for resume in [false, true] {
        let batch = select_batch(&vec![issue("web", 6)], &tracker, &channels, resume, None);
        assert!(batch.is_empty());
    }
    assert_eq!(tracker.get("acme/web", 6).unwrap().status, IssueStatus::Success);
}

#[test]
fn a_waiting_task_is_taken_up_once_answered() {
    let mut tracker = StateTracker::new();
    tracker.set_status("acme/web", 4, "waiting", IssueStatus::NeedsClarification);
    let mut channel = Clarifications::new();
    channel.put_question(4, "## Questions\nWhy?".into());
    let channels = vec![("web".to_string(), channel)];
    assert!(select_batch(&vec![issue("web", 4)], &tracker, &channels, true, None).is_empty());

    let mut channel = Clarifications::new();
    channel.put_question(4, "## Questions\nWhy?".into());
    channel.write_answer(4, "  ");
    let channels = vec![("web".to_string(), channel)];
    assert!(select_batch(&vec![issue("web", 4)], &tracker, &channels, false, None).is_empty());

    let mut channel = Clarifications::new();
    channel.put_question(4, "## Questions\nWhy?".into());
    channel.write_answer(4, "Because.");
    let channels = vec![("other".to_string(), Clarifications::new()), ("web".to_string(), channel)];
    let batch = select_batch(&vec![issue("web", 4)], &tracker, &channels, false, None);
    assert_eq!(numbers(&batch), vec![("web".to_string(), 4)]);
}

#[test]
fn no_task_is_taken_twice() {
    let tracker = StateTracker::new();
    let many = vec![issue("web", 1), issue("api", 1), issue("web", 2), issue("web", 1), issue("api", 1)];
    let batch = select_batch(&many, &tracker, &vec![], false, None);
    assert_eq!(
        numbers(&batch),
        vec![("web".to_string(), 1), ("api".to_string(), 1), ("web".to_string(), 2)]
    );
}

#[test]
fn the_filter_keeps_one_repository() {
    let tracker = StateTracker::new();
    let many = vec![issue("web", 1), issue("api", 1), issue("web", 2)];
    let batch = select_batch(&many, &tracker, &vec![], false, Some("web"));
    assert_eq!(numbers(&batch), vec![("web".to_string(), 1), ("web".to_string(), 2)]);
    assert!(select_batch(&many, &tracker, &vec![], false, Some("none")).is_empty());
    assert!(select_batch(&vec![], &tracker, &vec![], false, None).is_empty());
}

#[test]
fn the_filter_comes_after_the_first_of_a_task() {
    // One task under two names: the first name is the one that counts.
    let tracker = StateTracker::new();
    let mut second = issue("web", 1);
    second.repo_name = "mirror".into();
    let batch = select_batch(&vec![issue("web", 1), second], &tracker, &vec![], false, Some("mirror"));
    assert!(batch.is_empty());
}

#[test]
fn local_task_files() {
    assert_eq!(local_task_file_number("12.yaml"), Some(12));
    assert_eq!(local_task_file_number("12.yml"), None);
    assert_eq!(local_task_file_number("abc.yaml"), None);
    assert_eq!(local_task_file_number(".yaml"), None);
    assert_eq!(local_task_file_number("1.2.yaml"), None);
    assert_eq!(local_task_file_number("007.yaml"), Some(7));
}

fn repo(name: &str, github: &str) -> RepoConfig {
    RepoConfig {
        name: name.into(),
        path: "/tmp".into(),
        github: github.into(),
        test_command: "cargo test".into(),
        docker_required: false,
        issue_label: "forge".into(),
        base_branch: "main".into(),
        extra_tools: vec![],
    }
}

#[test]
fn local_issue_belongs_to_its_repo() {
    let now = Timestamp { secs: 9, nanos: 1 };
    let found = local_issue(&repo("web", "acme/site"), 3, "T".into(), "B".into(), vec!["x".into()], now);
    assert_eq!(found.number, 3);
    assert_eq!(found.title, "T");
    assert_eq!(found.body, "B");
    assert_eq!(found.labels, vec!["x"]);
    assert_eq!(found.repo_name, "web");
    assert_eq!(found.owner, "acme");
    assert_eq!(found.repo, "site");
    assert_eq!(found.created_at, now);
    assert_eq!(found.source, TaskSource::Local);
    assert_eq!(found.full_repo(), "acme/site");
}

#[test]
fn repo_of_a_record() {
    let config = Config {
        repos: vec![repo("a", "acme/a"), repo("broken", "acme"), repo("b", "acme/b"), repo("b2", "acme/b")],
        settings: Settings::default(),
    };
    assert_eq!(find_repo_by_github(&config, "acme/b").unwrap().name, "b");
    assert_eq!(find_repo_by_github(&config, "acme/a").unwrap().name, "a");
    assert!(find_repo_by_github(&config, "acme").is_none());
    assert!(find_repo_by_github(&config, "acme/c").is_none());
}
