use pfl_forge::error::ForgeError;
use pfl_forge::runner::{
    agent_output, consult_verdict, envelope_payload, extract_json, timeout_error, unwrap_envelope,
    verdict_of, wait_step, ClaudeRunner, ConsultVerdict, WaitStep,
};

#[test]
fn test_extract_json_raw() {
    let input = r#"{"actionable": true, "complexity": "low"}"#;
    assert_eq!(extract_json(input), input);
}

#[test]
fn test_extract_json_code_block() {
    let input = "Here's the result:\n```json\n{\"actionable\": true}\n```\n";
    assert_eq!(extract_json(input), "{\"actionable\": true}");
}

#[test]
fn test_extract_json_with_surrounding_text() {
    let input = "The analysis shows: {\"key\": \"value\"} end";
    assert_eq!(extract_json(input), "{\"key\": \"value\"}");
}

#[test]
fn test_parse_claude_json_output() {
    let raw = r#"{"result": "{\"actionable\": true}", "cost_usd": 0.01}"#;
    let payload = unwrap_envelope(raw).unwrap();
    let parsed: serde_json::Value = serde_json::from_str(&payload).unwrap();
    assert!(parsed.get("actionable").and_then(|v| v.as_bool()).unwrap());
}

#[test]
fn extract_json_fenced_and_tagged() {
    let input = "text ```json\n{\"a\":1}\n``` more text";
    assert_eq!(extract_json(input), "{\"a\":1}");
}

#[test]
fn extract_json_unfenced_object_is_unchanged() {
    assert_eq!(extract_json("{\"a\":1}"), "{\"a\":1}");
}

#[test]
fn extract_json_any_fence() {
    let input = "see\n```text\n  {\"b\": 2}  \n```\ntrailer";
    assert_eq!(extract_json(input), "{\"b\": 2}");
}

#[test]
fn extract_json_fence_without_line_feed() {
    assert_eq!(extract_json("``` {\"c\": 3} ```"), "{\"c\": 3}");
}

#[test]
fn extract_json_open_fence_falls_back_to_braces() {
    assert_eq!(extract_json("```json\n{\"d\": 4}"), "{\"d\": 4}");
}

#[test]
fn extract_json_first_open_to_last_close() {
    assert_eq!(extract_json("a {x} b {y} c"), "{x} b {y}");
}

#[test]
fn extract_json_without_json_is_trimmed() {
    assert_eq!(extract_json("  \n plain words \t"), "plain words");
}

#[test]
fn extract_json_close_before_open() {
    assert_eq!(extract_json(" } and { "), "} and {");
    assert_eq!(extract_json("}{"), "");
}

#[test]
fn extract_json_counts_characters_not_bytes() {
    assert_eq!(extract_json("héllo ```json\n{\"é\": \"ü\"}\n``` ö"), "{\"é\": \"ü\"}");
}

#[test]
fn envelope_without_result_field() {
    match unwrap_envelope("{\"cost_usd\": 0.01}") {
        Err(ForgeError::Claude(m)) => assert_eq!(m, "agent output missing 'result' field"),
        other => panic!("unexpected: {:?}", other),
    }
    match unwrap_envelope("{\"result\": 5}") {
        Err(ForgeError::Claude(m)) => assert_eq!(m, "agent output missing 'result' field"),
        other => panic!("unexpected: {:?}", other),
    }
}

#[test]
fn envelope_that_is_no_json() {
    match unwrap_envelope("not json") {
        Err(ForgeError::Claude(m)) => {
            assert!(m.starts_with("failed to parse agent output as JSON: "));
            assert!(m.len() > "failed to parse agent output as JSON: ".len());
        }
        other => panic!("unexpected: {:?}", other),
    }
}

#[test]
fn envelope_payload_of_each_member() {
    assert_eq!(
        envelope_payload(Ok(Some("x ```json\n[1]\n```".to_string()))).unwrap(),
        "[1]"
    );
    match envelope_payload(Err("boom".to_string())) {
        Err(ForgeError::Claude(m)) => assert_eq!(m, "failed to parse agent output as JSON: boom"),
        other => panic!("unexpected: {:?}", other),
    }
    assert!(matches!(envelope_payload(Ok(None)), Err(ForgeError::Claude(_))));
}

#[test]
fn envelope_extracts_fenced_payload() {
    let raw = "{\"result\": \"Here:\\n```json\\n{\\\"approved\\\": false}\\n```\"}";
    assert_eq!(unwrap_envelope(raw).unwrap(), "{\"approved\": false}");
}

#[test]
fn command_args_without_system_prompt() {
    let runner = ClaudeRunner::new(vec!["Read".to_string(), "Glob".to_string()]);
    assert_eq!(
        runner.command_args("sonnet", ""),
        vec!["-p", "--model", "sonnet", "--output-format", "json", "--allowedTools", "Read,Glob"]
    );
    assert_eq!(runner.allowed_tools(), &vec!["Read".to_string(), "Glob".to_string()]);
}

#[test]
fn command_args_with_system_prompt() {
    let runner = ClaudeRunner::new(vec![]);
    assert_eq!(
        runner.command_args("opus", "be brief"),
        vec![
            "-p",
            "--model",
            "opus",
            "--output-format",
            "json",
            "--allowedTools",
            "",
            "--append-system-prompt",
            "be brief"
        ]
    );
}

#[test]
fn agent_output_of_success_and_failure() {
    assert_eq!(agent_output(true, "exit status: 0", "out".to_string(), "err").unwrap(), "out");
    match agent_output(false, "exit status: 2", "out".to_string(), "bad flag") {
        Err(ForgeError::Claude(m)) => assert_eq!(m, "agent exited with exit status: 2: bad flag"),
        other => panic!("unexpected: {:?}", other),
    }
}

#[test]
fn wait_step_decisions() {
    assert_eq!(wait_step(true, 0, 10), WaitStep::Collect);
    assert_eq!(wait_step(true, 99, 10), WaitStep::Collect);
    assert_eq!(wait_step(false, 9, 10), WaitStep::Sleep);
    assert_eq!(wait_step(false, 10, 10), WaitStep::Kill);
    assert_eq!(wait_step(false, 11, 10), WaitStep::Kill);
}

#[test]
fn timeout_error_names_the_limit() {
    match timeout_error(90) {
        ForgeError::Timeout(m) => assert_eq!(m, "timed out after 90s"),
        other => panic!("unexpected: {:?}", other),
    }
    assert_eq!(timeout_error(0).to_text(), "timeout: timed out after 0s");
}

#[test]
fn consult_verdict_resolved() {
    let payload = r#"{"status": "resolved", "plan": "p", "relevant_files": ["a", "b"]}"#;
    assert!(matches!(consult_verdict(payload), Ok(ConsultVerdict::Resolved)));
}

#[test]
fn consult_verdict_needs_clarification() {
    let payload = r#"{"status": "needs_clarification", "message": "Which API?"}"#;
    match consult_verdict(payload) {
        Ok(ConsultVerdict::NeedsClarification(m)) => assert_eq!(m, "Which API?"),
        other => panic!("unexpected: {:?}", other),
    }
}

#[test]
fn consult_verdict_defaults() {
    match consult_verdict("{}") {
        Ok(ConsultVerdict::NeedsClarification(m)) => {
            assert_eq!(m, "Unable to determine implementation plan")
        }
        other => panic!("unexpected: {:?}", other),
    }
    match consult_verdict(r#"{"status": "RESOLVED", "message": 3}"#) {
        Ok(ConsultVerdict::NeedsClarification(m)) => {
            assert_eq!(m, "Unable to determine implementation plan")
        }
        other => panic!("unexpected: {:?}", other),
    }
    match consult_verdict("oops") {
        Err(ForgeError::Claude(m)) => assert!(m.starts_with("consultation parse: ")),
        other => panic!("unexpected: {:?}", other),
    }
}

#[test]
fn verdict_of_given_members() {
    assert!(matches!(
        verdict_of(Ok(Some("resolved".to_string())), Ok(Some("ignored".to_string()))),
        Ok(ConsultVerdict::Resolved)
    ));
    match verdict_of(Ok(None), Ok(Some("why?".to_string()))) {
        Ok(ConsultVerdict::NeedsClarification(m)) => assert_eq!(m, "why?"),
        other => panic!("unexpected: {:?}", other),
    }
    match verdict_of(Err("bad".to_string()), Ok(None)) {
        Err(ForgeError::Claude(m)) => assert_eq!(m, "consultation parse: bad"),
        other => panic!("unexpected: {:?}", other),
    }
}
