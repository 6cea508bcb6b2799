use pfl_forge::channel::{ClarificationContext, PendingClarification};
use pfl_forge::config::{Config, RepoConfig, Settings};
use pfl_forge::intent::{Clarification, Intent, IntentStatus};
use pfl_forge::model::Complexity;
use pfl_forge::parent_prompt::{build_initial_message, build_system_prompt, SYSTEM_HEAD, SYSTEM_TAIL};
use pfl_forge::prompt::{
    analyze_prompt, consult_prompt, implement_prompt, review_prompt, truncate_diff, MAX_DIFF_LEN,
};
use pfl_forge::status::{IssueStatus, Timestamp};
use pfl_forge::task::{ForgeIssue, ForgeTask, TaskSource};
use pfl_forge::tracker::StateTracker;
use pfl_forge::triage::{
    AnalysisResult, ArchitectOutcome, Clarity, DeepTriageResult, ReviewResult, TriageResult,
};
use pfl_forge::work::{task_filename, Issue, Task, WorkStatus};

fn issue() -> ForgeIssue {
    ForgeIssue {
        number: 12,
        title: "Fix the parser".into(),
        body: "It crashes.".into(),
        labels: vec!["forge".into(), "bug".into()],
        repo_name: "backend".into(),
        owner: "acme".into(),
        repo: "backend".into(),
        created_at: Timestamp { secs: 1, nanos: 0 },
        source: TaskSource::default(),
    }
}

fn analysis() -> AnalysisResult {
    AnalysisResult {
        complexity: "High".into(),
        plan: "Guard the index".into(),
        relevant_files: vec!["a.rs".into(), "b.rs".into()],
        implementation_steps: vec!["one".into(), "two".into()],
        context: "parser".into(),
    }
}

#[test]
fn sufficiency_needs_plan_files_and_steps() {
    assert!(analysis().is_sufficient());
    let mut a = analysis();
    a.plan = String::new();
    assert!(!a.is_sufficient());
    let mut a = analysis();
    a.relevant_files.clear();
    assert!(!a.is_sufficient());
    let mut a = analysis();
    a.implementation_steps.clear();
    assert!(!a.is_sufficient());
    let mut a = analysis();
    a.context = String::new();
    a.complexity = String::new();
    assert!(a.is_sufficient());
}

#[test]
fn complexity_of_results() {
    assert_eq!(analysis().complexity(), Complexity::High);
    let mut a = analysis();
    a.complexity = "unknown".into();
    assert_eq!(a.complexity(), Complexity::Medium);
    let quick = TriageResult {
        actionable: false,
        clarity: Clarity::NeedsMoreInfo,
        complexity: "low".into(),
        summary: "s".into(),
    };
    assert!(quick.should_skip());
    assert!(quick.needs_clarification());
    assert_eq!(quick.complexity(), Complexity::Low);
    let clear = TriageResult {
        actionable: true,
        clarity: Clarity::Clear,
        complexity: "?".into(),
        summary: "s".into(),
    };
    assert!(!clear.should_skip());
    assert!(!clear.needs_clarification());
    assert_eq!(clear.complexity(), Complexity::Medium);
}

#[test]
fn task_names() {
    assert_eq!(issue().branch_name(), "forge/issue-12");
    assert_eq!(issue().full_repo(), "acme/backend");
    assert_eq!(issue().worktree_path(".wt"), ".wt/forge/issue-12");
    assert_eq!(issue().to_text(), "acme/backend#12: Fix the parser");
    assert_eq!(TaskSource::default(), TaskSource::GitHub);
}

#[test]
fn analyze_prompt_text() {
    assert_eq!(
        analyze_prompt(&issue(), None),
        "Task acme/backend#12: Fix the parser\nLabels: forge, bug\n\nIt crashes."
    );
    let ctx = ClarificationContext {
        previous_analysis: analysis(),
        questions: "Which one?".into(),
        answer: "The first.".into(),
    };
    assert_eq!(
        analyze_prompt(&issue(), Some(&ctx)),
        "Task acme/backend#12: Fix the parser\nLabels: forge, bug\n\nIt crashes.\n\n## Previous Analysis (from prior analysis attempt)\nRelevant files: a.rs, b.rs\nPlan: Guard the index\nContext: parser\n\n## Clarification from maintainer\nThe first.\n\nUse the previous analysis as a starting point. The clarification above resolves\nquestions from the prior attempt. Update the plan accordingly."
    );
}

#[test]
fn consult_prompt_text() {
    assert_eq!(
        consult_prompt(&issue(), &analysis()),
        "Task acme/backend#12: Fix the parser\n\nIt crashes.\n\n## Previous analysis attempt (insufficient):\n- Plan: Guard the index\n- Relevant files: a.rs, b.rs\n- Steps: one; two\n- Context: parser"
    );
}

#[test]
fn implement_prompt_carries_the_feedback() {
    assert_eq!(
        implement_prompt(&issue(), None),
        "## Task acme/backend#12: Fix the parser\n\nIt crashes."
    );
    let both = ReviewResult {
        approved: false,
        issues: vec!["off by one".into(), "no test".into()],
        suggestions: vec!["rename".into()],
    };
    assert_eq!(
        implement_prompt(&issue(), Some(&both)),
        "## Task acme/backend#12: Fix the parser\n\nIt crashes.\n\n## Previous Review Feedback\n\nThe previous implementation was rejected. Address the following:\n\n### Issues\n- off by one\n- no test\n\n### Suggestions\n- rename\n"
    );
    let none = ReviewResult { approved: false, issues: vec![], suggestions: vec![] };
    assert_eq!(
        implement_prompt(&issue(), Some(&none)),
        "## Task acme/backend#12: Fix the parser\n\nIt crashes.\n\n## Previous Review Feedback\n\nThe previous implementation was rejected. Address the following:\n"
    );
}

#[test]
fn review_prompt_text() {
    assert_eq!(
        review_prompt(&issue(), "Guard the index", "+ check"),
        "## Task acme/backend#12: Fix the parser\n\nIt crashes.\n\n## Implementation Plan\n\nGuard the index\n\n## Diff\n\n```\n+ check\n```"
    );
}

#[test]
fn diff_is_cut_between_characters() {
    assert_eq!(truncate_diff("abcdef", 10), "abcdef");
    assert_eq!(truncate_diff("abcdef", 6), "abcdef");
    assert_eq!(truncate_diff("abcdef", 4), "abcd");
    assert_eq!(truncate_diff("abcdef", 0), "");
    assert_eq!(truncate_diff("aé😀", 1), "a");
    assert_eq!(truncate_diff("aé😀", 2), "a");
    assert_eq!(truncate_diff("aé😀", 3), "aé");
    assert_eq!(truncate_diff("aé😀", 6), "aé");
    assert_eq!(truncate_diff("aé😀", 7), "aé😀");
    let long = "x".repeat(MAX_DIFF_LEN + 5);
    assert_eq!(truncate_diff(&long, MAX_DIFF_LEN).len(), 50000);
}

fn repo(name: &str) -> RepoConfig {
    RepoConfig {
        name: name.into(),
        path: format!("/src/{}", name),
        github: format!("acme/{}", name),
        test_command: "cargo test".into(),
        docker_required: false,
        issue_label: "forge".into(),
        base_branch: "main".into(),
        extra_tools: vec![],
    }
}

#[test]
fn system_prompt_lists_the_repos() {
    let config = Config { repos: vec![repo("web"), repo("api")], settings: Settings::default() };
    let prompt = build_system_prompt(&config);
    let lines = "- web: path=/src/web, test=`cargo test`, base=main\n- api: path=/src/api, test=`cargo test`, base=main";
    assert_eq!(prompt, format!("{}{}{}", SYSTEM_HEAD, lines, SYSTEM_TAIL));
    assert!(prompt.starts_with("You are the parent agent for pfl-forge"));
    assert!(prompt.ends_with("- Report results back to the user clearly."));
    let none = Config { repos: vec![], settings: Settings::default() };
    assert_eq!(build_system_prompt(&none), format!("{}{}", SYSTEM_HEAD, SYSTEM_TAIL));
}

#[test]
fn initial_message_text() {
    let mut tracker = StateTracker::new();
    tracker.set_status("o/r", 1, "t", IssueStatus::Pending);
    let summary = tracker.summary();
    assert_eq!(
        build_initial_message(&summary, &vec![]),
        "Current state: pending=1, in_progress=0, completed=0, skipped=0, failed=0\n\nNo pending clarifications. You can run `pfl-forge run` to process new tasks or check status."
    );
    let pending = vec![
        PendingClarification {
            repo_name: "web".into(),
            issue_number: 4,
            content: "# T\n## Questions\nWhich?\nWhy?\n".into(),
        },
        PendingClarification { repo_name: "api".into(), issue_number: 9, content: "nothing".into() },
    ];
    assert_eq!(
        build_initial_message(&summary, &pending),
        "Current state: pending=1, in_progress=0, completed=0, skipped=0, failed=0\n\nThere are pending clarification questions:\n\n### web #4\nWhich?\nWhy?\n### api #9\n\n\nPlease present these questions to the user and help resolve them."
    );
}

#[test]
fn intent_names_and_questions() {
    let mut intent = Intent {
        file_stem: "add-login".into(),
        title: "Add login".into(),
        body: "b".into(),
        intent_type: None,
        source: "human".into(),
        risk: None,
        status: IntentStatus::default(),
        parent: None,
        clarifications: vec![],
        created_at: None,
    };
    assert_eq!(intent.id(), "add-login");
    assert_eq!(intent.branch_name(), "forge/add-login");
    assert_eq!(intent.to_text(), "add-login: Add login");
    assert_eq!(intent.status, IntentStatus::Proposed);
    assert!(!intent.needs_clarification());
    intent.clarifications.push(Clarification { question: "a".into(), answer: Some("x".into()) });
    assert!(!intent.needs_clarification());
    intent.clarifications.push(Clarification { question: "b".into(), answer: None });
    intent.clarifications.push(Clarification { question: "c".into(), answer: Some("y".into()) });
    assert!(intent.needs_clarification());
}

#[test]
fn work_items() {
    let local = Issue { id: "t-1".into(), title: "T".into(), body: "B".into(), labels: vec![] };
    assert_eq!(local.branch_name(), "forge/t-1");
    assert_eq!(local.to_text(), "t-1: T");
    let task = Task::from_analysis(&local, &analysis());
    assert_eq!(task.id, "t-1");
    assert_eq!(task.title, "T");
    assert_eq!(task.body, "B");
    assert_eq!(task.status, WorkStatus::Pending);
    assert_eq!(task.status, WorkStatus::default());
    assert_eq!(task.complexity, "High");
    assert_eq!(task.plan, "Guard the index");
    assert_eq!(task.relevant_files, vec!["a.rs", "b.rs"]);
    assert_eq!(task.implementation_steps, vec!["one", "two"]);
    assert_eq!(task.context, "parser");
    assert_eq!(task.complexity(), Complexity::High);
    assert_eq!(task_filename("t-1", 1), "t-1-001.yaml");
    assert_eq!(task_filename("t-1", 42), "t-1-042.yaml");
    assert_eq!(task_filename("t-1", 999), "t-1-999.yaml");
    assert_eq!(task_filename("t-1", 1000), "t-1-1000.yaml");
    assert_eq!(task_filename("", 0), "-000.yaml");
}

#[test]
fn named_tasks() {
    let task = ForgeTask {
        id: "add-login".into(),
        title: "Add login".into(),
        body: "b".into(),
        labels: vec!["x".into()],
        created_at: Timestamp { secs: 3, nanos: 4 },
    };
    assert_eq!(task.branch_name(), "forge/add-login");
    assert_eq!(task.worktree_path(".wt"), ".wt/forge/add-login");
    assert_eq!(task.to_text(), "add-login: Add login");
    let copy = task.clone();
    assert_eq!(copy.id, "add-login");
    assert_eq!(copy.labels, vec!["x"]);
    assert_eq!(copy.created_at, Timestamp { secs: 3, nanos: 4 });
}

#[test]
fn other_names_of_the_results() {
    let deep: DeepTriageResult = analysis();
    assert!(deep.is_sufficient());
    let outcome = ArchitectOutcome::NeedsClarification("why".into());
    assert!(matches!(outcome, ArchitectOutcome::NeedsClarification(ref m) if m == "why"));
}
