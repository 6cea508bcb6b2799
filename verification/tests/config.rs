use pfl_forge::config::{
    default_state_file, path_join, AutoMergePolicy, Config, ModelSettings, RepoConfig, Settings,
};
use pfl_forge::error::ForgeError;

fn repo(name: &str, github: &str, extra: Vec<&str>) -> RepoConfig {
    RepoConfig {
        name: name.into(),
        path: "/tmp".into(),
        github: github.into(),
        test_command: "cargo test".into(),
        docker_required: false,
        issue_label: "forge".into(),
        base_branch: "main".into(),
        extra_tools: extra.into_iter().map(|s| s.to_string()).collect(),
    }
}

#[test]
fn test_default_settings() {
    let settings = Settings::default();
    assert_eq!(settings.parallel_workers, 4);
    assert_eq!(settings.auto_merge, AutoMergePolicy::TestsPassNoConflict);
    assert_eq!(settings.worker_tools.len(), 6);
}

#[test]
fn test_repo_all_tools() {
    let repo = RepoConfig {
        name: "test".into(),
        path: "/tmp".into(),
        github: "owner/repo".into(),
        test_command: "cargo test".into(),
        docker_required: false,
        issue_label: "forge".into(),
        base_branch: "main".into(),
        extra_tools: vec!["WebSearch".into()],
    };
    let base = vec!["Bash".into(), "Read".into()];
    let all = repo.all_tools(&base);
    assert_eq!(all, vec!["Bash", "Read", "WebSearch"]);
}

#[test]
fn test_owner_repo() {
    let repo = RepoConfig {
        name: "test".into(),
        path: "/tmp".into(),
        github: "nesso-pfl/pokeca-backend".into(),
        test_command: "cargo test".into(),
        docker_required: false,
        issue_label: "forge".into(),
        base_branch: "main".into(),
        extra_tools: vec![],
    };
    assert_eq!(repo.owner_repo(), ("nesso-pfl", "pokeca-backend"));
}

#[test]
fn all_tools_adds_each_new_tool_once() {
    let r = repo("test", "o/r", vec!["Read", "WebSearch", "WebSearch", "Bash", "Fetch"]);
    let base = vec!["Bash".to_string(), "Read".to_string()];
    assert_eq!(r.all_tools(&base), vec!["Bash", "Read", "WebSearch", "Fetch"]);
    assert_eq!(repo("t", "o/r", vec![]).all_tools(&base), vec!["Bash", "Read"]);
}

#[test]
fn owner_repo_splits_at_first_slash() {
    assert_eq!(repo("t", "a/b/c", vec![]).owner_repo(), ("a", "b/c"));
    assert_eq!(repo("t", "/x", vec![]).owner_repo(), ("", "x"));
    assert!(repo("t", "a/b", vec![]).names_owner());
    assert!(!repo("t", "ab", vec![]).names_owner());
}

#[test]
fn default_settings_in_full() {
    let settings = Settings::default();
    assert_eq!(
        settings.worker_tools,
        vec!["Bash", "Read", "Write", "Edit", "Glob", "Grep"]
    );
    assert_eq!(settings.triage_tools, vec!["Read", "Glob", "Grep"]);
    assert_eq!(settings.poll_interval_secs, 300);
    assert_eq!(settings.worktree_dir, ".pfl-worktrees");
    assert_eq!(settings.state_file, "./.pfl-forge/state.yaml");
    assert_eq!(settings.max_review_retries, 2);
    assert_eq!(settings.models.triage, "haiku");
    assert_eq!(settings.models.default, "sonnet");
    assert_eq!(settings.models.complex, "opus");
    let models = ModelSettings::default();
    assert_eq!(models.default, "sonnet");
}

#[test]
fn state_file_below_home() {
    assert_eq!(default_state_file(Some("/home/u")), "/home/u/.pfl-forge/state.yaml");
    assert_eq!(default_state_file(Some("/home/u/")), "/home/u/.pfl-forge/state.yaml");
    assert_eq!(default_state_file(None), "./.pfl-forge/state.yaml");
    assert_eq!(default_state_file(Some("")), ".pfl-forge/state.yaml");
}

#[test]
fn path_join_cases() {
    assert_eq!(path_join("/repo", ".wt"), "/repo/.wt");
    assert_eq!(path_join("/repo/", ".wt"), "/repo/.wt");
    assert_eq!(path_join("/repo", "/abs"), "/abs");
    assert_eq!(path_join("", "rel"), "rel");
    assert_eq!(path_join("/repo", ""), "/repo/");
}

#[test]
fn validate_reports_first_fault() {
    let empty = Config { repos: vec![], settings: Settings::default() };
    match empty.validate(&vec![]) {
        Err(ForgeError::Config(m)) => assert_eq!(m, "no repos configured"),
        other => panic!("unexpected: {:?}", other),
    }
    let config = Config {
        repos: vec![repo("a", "o/a", vec![]), repo("b", "nope", vec![]), repo("c", "o/c", vec![])],
        settings: Settings::default(),
    };
    match config.validate(&vec![true, true, false]) {
        Err(ForgeError::Config(m)) => assert_eq!(m, "github must be in owner/repo format: nope"),
        other => panic!("unexpected: {:?}", other),
    }
    match config.validate(&vec![true, false, false]) {
        Err(ForgeError::Config(m)) => assert_eq!(m, "repo path does not exist: /tmp"),
        other => panic!("unexpected: {:?}", other),
    }
    let good = Config {
        repos: vec![repo("a", "o/a", vec![]), repo("c", "o/c", vec![])],
        settings: Settings::default(),
    };
    assert!(good.validate(&vec![true, true]).is_ok());
}

#[test]
fn find_repo_takes_the_first_of_that_name() {
    let config = Config {
        repos: vec![repo("a", "o/a", vec![]), repo("b", "o/b1", vec![]), repo("b", "o/b2", vec![])],
        settings: Settings::default(),
    };
    assert_eq!(config.find_repo("b").unwrap().github, "o/b1");
    assert_eq!(config.find_repo("a").unwrap().github, "o/a");
    assert!(config.find_repo("z").is_none());
}

#[test]
fn validate_takes_an_unknown_path_as_missing() {
    let config = Config {
        repos: vec![repo("a", "o/a", vec![]), repo("b", "o/b", vec![])],
        settings: Settings::default(),
    };
    match config.validate(&vec![true]) {
        Err(ForgeError::Config(m)) => assert_eq!(m, "repo path does not exist: /tmp"),
        other => panic!("unexpected: {:?}", other),
    }
    assert_eq!(Settings::default().agent_command, "");
}
