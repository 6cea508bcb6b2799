use pfl_forge::channel::Clarifications;
use pfl_forge::clarification::{
    answer_file_name, answer_file_number, extract_questions, parse_question_file,
    question_file_name, question_file_number, render_question,
};
use pfl_forge::pending::{find_repo_for_issue, list_pending_clarifications, sort_pending, str_less};
use pfl_forge::channel::PendingClarification;
use pfl_forge::status::Timestamp;
use pfl_forge::task::{ForgeIssue, TaskSource};
use pfl_forge::triage::AnalysisResult;

fn issue(number: u64) -> ForgeIssue {
    ForgeIssue {
        number,
        title: "Add login".into(),
        body: "Users cannot log in.".into(),
        labels: vec![],
        repo_name: "web".into(),
        owner: "acme".into(),
        repo: "web".into(),
        created_at: Timestamp { secs: 0, nanos: 0 },
        source: TaskSource::GitHub,
    }
}

fn analysis() -> AnalysisResult {
    AnalysisResult {
        complexity: "low".into(),
        plan: "Wire the form".into(),
        relevant_files: vec!["src/login.rs".into(), "src/form.rs".into()],
        implementation_steps: vec!["step".into()],
        context: "uses axum".into(),
    }
}

#[test]
fn question_document_text() {
    let text = render_question(&issue(42), &analysis(), "Which provider?\nWhich scopes?");
    assert_eq!(
        text,
        "# Clarification needed: Issue #42\n\n## Issue\nAdd login\nUsers cannot log in.\n\n## Previous Analysis\nRelevant files: src/login.rs, src/form.rs\nPlan: Wire the form\nContext: uses axum\n\n## Questions\nWhich provider?\nWhich scopes?\n"
    );
}

#[test]
fn question_document_reads_back() {
    let text = render_question(&issue(42), &analysis(), "Which provider?\nWhich scopes?");
    let (previous, questions) = parse_question_file(&text);
    assert_eq!(previous.complexity, "medium");
    assert_eq!(previous.plan, "Wire the form");
    assert_eq!(previous.relevant_files, vec!["src/login.rs", "src/form.rs"]);
    assert!(previous.implementation_steps.is_empty());
    assert_eq!(previous.context, "uses axum");
    assert_eq!(questions, "Which provider?\nWhich scopes?");
}

#[test]
fn parse_question_file_edge_cases() {
    let (previous, questions) = parse_question_file("");
    assert_eq!(previous.plan, "");
    assert!(previous.relevant_files.is_empty());
    assert_eq!(questions, "");

    // No file at all is one empty file name.
    let (previous, _) = parse_question_file("## Previous Analysis\nRelevant files: \nPlan: p\n");
    assert_eq!(previous.relevant_files, vec![""]);
    assert_eq!(previous.plan, "p");

    // Labels count only under their heading; another heading closes a section.
    let text = "Plan: outside\n## Previous Analysis\nPlan: inside\r\n## Other\nPlan: late\n## Questions\n\nfirst\n\nsecond\n## Previous Analysis\nContext: again";
    let (previous, questions) = parse_question_file(text);
    assert_eq!(previous.plan, "inside");
    assert_eq!(previous.context, "again");
    assert_eq!(questions, "first\n\nsecond");
}

#[test]
fn extract_questions_stops_at_the_next_heading() {
    let text = "# T\n## Questions\nq1\nq2\n## Notes\nq3\n## Questions\nq4\n";
    assert_eq!(extract_questions(text), "q1\nq2");
    assert_eq!(extract_questions("no heading\nq"), "");
    assert_eq!(extract_questions("## Questions\n"), "");
    let rendered = render_question(&issue(1), &analysis(), "Why?");
    assert_eq!(extract_questions(&rendered), "Why?");
}

#[test]
fn document_names() {
    assert_eq!(question_file_name(42), "42.md");
    assert_eq!(answer_file_name(42), "42.answer.md");
    assert_eq!(question_file_name(0), "0.md");
    assert_eq!(question_file_name(u64::MAX), "18446744073709551615.md");
}

#[test]
fn question_file_number_cases() {
    assert_eq!(question_file_number("42.md"), Some(42));
    assert_eq!(question_file_number("42.answer.md"), None);
    assert_eq!(question_file_number("42.txt"), None);
    assert_eq!(question_file_number("notes.md"), None);
    assert_eq!(question_file_number("007.md"), Some(7));
    assert_eq!(question_file_number("+5.md"), Some(5));
    assert_eq!(question_file_number("5.md.md"), Some(5));
    assert_eq!(question_file_number(".md"), None);
    assert_eq!(question_file_number("18446744073709551616.md"), None);
    for n in [0u64, 9, 10, 12345, u64::MAX] {
        assert_eq!(question_file_number(&question_file_name(n)), Some(n));
        assert_eq!(question_file_number(&answer_file_name(n)), None);
    }
}

#[test]
fn written_answer_is_found() {
    let mut channel = Clarifications::new();
    channel.write_clarification(&issue(7), &analysis(), "Which provider?");
    assert!(channel.check_clarification(7).is_none());
    channel.write_answer(7, "X");
    let ctx = channel.check_clarification(7).unwrap();
    assert_eq!(ctx.answer, "X");
    assert_eq!(ctx.questions, "Which provider?");
    assert_eq!(ctx.previous_analysis.plan, "Wire the form");
    assert_eq!(ctx.previous_analysis.relevant_files, vec!["src/login.rs", "src/form.rs"]);
    assert_eq!(ctx.previous_analysis.context, "uses axum");
    // Another task has no answer.
    assert!(channel.check_clarification(8).is_none());
}

#[test]
fn cleanup_removes_both_documents() {
    let mut channel = Clarifications::new();
    channel.write_clarification(&issue(7), &analysis(), "Q");
    channel.write_answer(7, "X");
    channel.cleanup_clarification(7);
    assert!(channel.check_clarification(7).is_none());
    assert!(!channel.has_question(7));
    assert!(channel.list_pending("web").is_empty());
}

#[test]
fn blank_answer_is_no_answer() {
    let mut channel = Clarifications::new();
    channel.write_clarification(&issue(7), &analysis(), "Q");
    channel.write_answer(7, "");
    assert!(channel.check_clarification(7).is_none());
    channel.write_answer(7, " \n\t ");
    assert!(channel.check_clarification(7).is_none());
    channel.write_answer(7, "  yes \n");
    assert_eq!(channel.check_clarification(7).unwrap().answer, "  yes \n");
}

#[test]
fn answer_without_question() {
    let mut channel = Clarifications::new();
    channel.write_answer(3, "go");
    let ctx = channel.check_clarification(3).unwrap();
    assert_eq!(ctx.answer, "go");
    assert_eq!(ctx.questions, "");
    assert_eq!(ctx.previous_analysis.plan, "");
    assert!(ctx.previous_analysis.relevant_files.is_empty());
}

#[test]
fn answer_is_overwritten() {
    let mut channel = Clarifications::new();
    channel.write_answer(3, "one");
    channel.write_answer(3, "two");
    assert_eq!(channel.check_clarification(3).unwrap().answer, "two");
}

#[test]
fn pending_questions_lack_an_answer() {
    let mut channel = Clarifications::new();
    channel.put_question(9, "nine".into());
    channel.put_question(2, "two".into());
    channel.put_question(5, "five".into());
    channel.write_answer(2, "done");
    channel.write_answer(6, "stray");
    let pending = channel.list_pending("web");
    let numbers: Vec<u64> = pending.iter().map(|p| p.issue_number).collect();
    assert_eq!(numbers, vec![9, 5]);
    assert_eq!(pending[0].repo_name, "web");
    assert_eq!(pending[0].content, "nine");
}

#[test]
fn pending_of_all_repos_in_order() {
    let mut web = Clarifications::new();
    web.put_question(9, "w9".into());
    web.put_question(2, "w2".into());
    let mut api = Clarifications::new();
    api.put_question(30, "a30".into());
    api.put_question(4, "a4".into());
    api.write_answer(30, "ok");
    let repos = vec![("web".to_string(), web), ("api".to_string(), api)];
    let pending = list_pending_clarifications(&repos);
    let listed: Vec<(String, u64, String)> = pending
        .into_iter()
        .map(|p| (p.repo_name, p.issue_number, p.content))
        .collect();
    assert_eq!(
        listed,
        vec![
            ("api".to_string(), 4, "a4".to_string()),
            ("web".to_string(), 2, "w2".to_string()),
            ("web".to_string(), 9, "w9".to_string()),
        ]
    );
    assert!(list_pending_clarifications(&vec![]).is_empty());
}

#[test]
fn sort_keeps_equal_items_in_their_order() {
    let item = |repo: &str, n: u64, c: &str| PendingClarification {
        repo_name: repo.into(),
        issue_number: n,
        content: c.into(),
    };
    let sorted = sort_pending(&vec![
        item("b", 1, "first"),
        item("a", 2, "x"),
        item("b", 1, "second"),
        item("a", 1, "y"),
        item("ab", 0, "z"),
    ]);
    let listed: Vec<(String, u64, String)> =
        sorted.into_iter().map(|p| (p.repo_name, p.issue_number, p.content)).collect();
    assert_eq!(
        listed,
        vec![
            ("a".to_string(), 1, "y".to_string()),
            ("a".to_string(), 2, "x".to_string()),
            ("ab".to_string(), 0, "z".to_string()),
            ("b".to_string(), 1, "first".to_string()),
            ("b".to_string(), 1, "second".to_string()),
        ]
    );
}

#[test]
fn str_less_is_the_order_of_strings() {
    let words = ["", "a", "ab", "abc", "b", "B", "é", "z", "zz", "😀", "a\u{0}"];
    for x in words {
        for y in words {
            assert_eq!(str_less(x, y), x < y, "{:?} < {:?}", x, y);
        }
    }
}

#[test]
fn repo_of_a_question() {
    let mut web = Clarifications::new();
    web.put_question(9, "w9".into());
    let mut api = Clarifications::new();
    api.put_question(9, "a9".into());
    api.put_question(4, "a4".into());
    api.write_answer(5, "answer only");
    let repos = vec![("web".to_string(), web), ("api".to_string(), api)];
    assert_eq!(find_repo_for_issue(&repos, 9), Some(0));
    assert_eq!(find_repo_for_issue(&repos, 4), Some(1));
    assert_eq!(find_repo_for_issue(&repos, 5), None);
    assert_eq!(find_repo_for_issue(&repos, 1), None);
}

#[test]
fn answer_file_number_cases() {
    assert_eq!(answer_file_number("42.answer.md"), Some(42));
    assert_eq!(answer_file_number("42.md"), None);
    assert_eq!(answer_file_number("042.answer.md"), None);
    assert_eq!(answer_file_number("+42.answer.md"), None);
    assert_eq!(answer_file_number(".answer.md"), None);
    assert_eq!(answer_file_number("x.answer.md"), None);
    for n in [0u64, 7, 10, u64::MAX] {
        assert_eq!(answer_file_number(&answer_file_name(n)), Some(n));
        assert_eq!(answer_file_number(&question_file_name(n)), None);
    }
}

#[test]
fn what_is_written_is_read_back_through_the_channel() {
    let mut channel = Clarifications::new();
    let mut found = analysis();
    found.relevant_files = vec!["a b.rs".into(), "c,d.rs".into(), "e".into()];
    found.plan = "plan: with, commas ## and hashes".into();
    found.context = "Plan: looks like a label".into();
    let mut task = issue(9);
    task.body = "first\n## Notes\nPlan: not this one\n\nlast".into();
    let questions = "Which one?\n\n- this\n- that\n";
    channel.write_clarification(&task, &found, questions);
    channel.write_answer(9, "this");
    let ctx = channel.check_clarification(9).unwrap();
    assert_eq!(ctx.previous_analysis.relevant_files, found.relevant_files);
    assert_eq!(ctx.previous_analysis.plan, found.plan);
    assert_eq!(ctx.previous_analysis.context, found.context);
    assert_eq!(ctx.questions, questions);
    assert_eq!(ctx.answer, "this");
}

#[test]
fn what_is_not_read_back() {
    // A body that opens the section of the questions is read as questions.
    let mut task = issue(9);
    task.body = "## Questions\nstray".into();
    let text = render_question(&task, &analysis(), "real");
    let (_, questions) = parse_question_file(&text);
    assert_eq!(questions, "stray\n\nreal");
    // Questions that begin with an empty line lose it.
    let text = render_question(&issue(9), &analysis(), "\nlate");
    let (_, questions) = parse_question_file(&text);
    assert_eq!(questions, "late");
}
