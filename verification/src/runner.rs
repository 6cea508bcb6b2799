//! The boundary to the coding agent: how it is invoked, and how its answer is
//! unwrapped.

use crate::decimal::{decimal, u64_to_string};
use crate::error::{ForgeError, ForgeErrorView};
use crate::lines::{join, join_with, line_feed};
use crate::text::{
    chars_of, contains, find, find_from, last_index_of, lemma_contains, lemma_find_from,
    occurs_at, rfind_char, same_text, trim, trim_range,
};
use vstd::prelude::*;

verus! {

// ---------------------------------------------------------------------------
// Extracting the JSON part of an answer
// ---------------------------------------------------------------------------

/// The trimmed text between the first "```json" and the next "```" after it.
pub open spec fn tagged_block(text: Seq<char>) -> Option<Seq<char>> {
    match find_from(text, "```json"@, 0) {
        Some(start) => {
            let from = start + "```json"@.len();
            match find_from(text, "```"@, from) {
                Some(end) => Some(trim(text.subrange(from, end))),
                None => None,
            }
        },
        None => None,
    }
}

/// The trimmed text of the first fenced block: it begins on the line after
/// the first "```" (directly after it where no line feed follows), and ends
/// before the next "```".
pub open spec fn fenced_block(text: Seq<char>) -> Option<Seq<char>> {
    match find_from(text, "```"@, 0) {
        Some(start) => {
            let after = start + "```"@.len();
            let from = match find_from(text, line_feed(), after) {
                Some(n) => n + 1,
                None => after,
            };
            match find_from(text, "```"@, from) {
                Some(end) => Some(trim(text.subrange(from, end))),
                None => None,
            }
        },
        None => None,
    }
}

/// The text from the first `{` to the last `}`, both included, where the
/// last `}` does not stand more than one place before the first `{`.
pub open spec fn brace_span(text: Seq<char>) -> Option<Seq<char>> {
    match (find_from(text, seq!['{'], 0), last_index_of(text, '}')) {
        (Some(start), Some(end)) => if start <= end + 1 {
            Some(text.subrange(start, end + 1))
        } else {
            None
        },
        _ => None,
    }
}

/// The JSON part of an answer: the first that exists of the block fenced
/// with "```json", any fenced block, the span of the braces, and else the
/// trimmed text.
pub open spec fn spec_extract_json(text: Seq<char>) -> Seq<char> {
    if let Some(body) = tagged_block(text) {
        body
    } else if let Some(body) = fenced_block(text) {
        body
    } else if let Some(span) = brace_span(text) {
        span
    } else {
        trim(text)
    }
}

/// The JSON part of an answer that may wrap it in prose or in a fenced block.
pub fn extract_json(text: &str) -> (r: &str)
    ensures
        r@ == spec_extract_json(text@),
{
    let v = chars_of(text);
    let n = v.len();
    let tagged = chars_of("```json");
    let fence = chars_of("```");
    if let Some(start) = find(&v, &tagged, 0) {
        let from = start + tagged.len();
        if let Some(end) = find(&v, &fence, from) {
            proof {
                lemma_find_from(text@, "```"@, from as int);
            }
            let (a, b) = trim_range(&v, from, end);
            return text.substring_char(a, b);
        }
    }
    if let Some(start) = find(&v, &fence, 0) {
        let after = start + fence.len();
        let mut nl: Vec<char> = Vec::new();
        nl.push('\n');
        assert(nl@ == line_feed());
        let from = match find(&v, &nl, after) {
            Some(k) => k + 1,
            None => after,
        };
        if let Some(end) = find(&v, &fence, from) {
            proof {
                lemma_find_from(text@, "```"@, from as int);
            }
            let (a, b) = trim_range(&v, from, end);
            return text.substring_char(a, b);
        }
    }
    let mut open: Vec<char> = Vec::new();
    open.push('{');
    assert(open@ == seq!['{']);
    if let Some(start) = find(&v, &open, 0) {
        if let Some(end) = rfind_char(&v, '}') {
            if start <= end + 1 {
                return text.substring_char(start, end + 1);
            }
        }
    }
    let (a, b) = trim_range(&v, 0, n);
    assert(v@.subrange(0, n as int) == v@);
    text.substring_char(a, b)
}

/// A text without "```" holds no block of either kind.
pub proof fn lemma_no_fence_no_block(text: Seq<char>)
    requires
        !contains(text, "```"@),
    ensures
        tagged_block(text) is None,
        fenced_block(text) is None,
{
    reveal_strlit("```");
    reveal_strlit("```json");
    lemma_contains(text, "```"@);
    lemma_find_from(text, "```"@, 0);
    lemma_find_from(text, "```json"@, 0);
    if let Some(start) = find_from(text, "```json"@, 0) {
        assert(text.subrange(start, start + 3) =~= text.subrange(start, start + 7).subrange(0, 3));
        assert("```json"@.subrange(0, 3) =~= "```"@);
        assert(occurs_at(text, "```"@, start));
    }
}

/// An answer without a fence that holds an opening brace, and after it a
/// closing one, is cut from its first `{` to its last `}`.
pub proof fn lemma_extract_braces(text: Seq<char>, first: int, last: int)
    requires
        !contains(text, "```"@),
        find_from(text, seq!['{'], 0) == Some(first),
        last_index_of(text, '}') == Some(last),
        first <= last,
    ensures
        spec_extract_json(text) == text.subrange(first, last + 1),
{
    lemma_no_fence_no_block(text);
}

/// An answer without a fence that begins with `{` and ends with `}` is
/// returned unchanged.
pub proof fn lemma_extract_bare_object(text: Seq<char>)
    requires
        !contains(text, "```"@),
        text.len() > 0,
        text[0] == '{',
        text.last() == '}',
    ensures
        spec_extract_json(text) == text,
{
    lemma_no_fence_no_block(text);
    assert(text.subrange(0, 1) =~= seq!['{']);
    assert(occurs_at(text, seq!['{'], 0));
    assert(last_index_of(text, '}') == Some(text.len() - 1));
    assert(text.subrange(0, text.len() as int) =~= text);
}

// ---------------------------------------------------------------------------
// The transport envelope
// ---------------------------------------------------------------------------

/// What a JSON parser finds in `text` under `key`: an error with its message
/// where `text` is not one JSON value; else the string that the value holds as
/// its member `key`, or `None` where the value is no object, has no such
/// member, or the member is no string.
pub uninterp spec fn json_string_member(text: Seq<char>, key: Seq<char>) -> Result<
    Option<Seq<char>>,
    Seq<char>,
>;

/// The mathematical content of what [`string_member`] returns.
pub open spec fn member_view(member: Result<Option<String>, String>) -> Result<
    Option<Seq<char>>,
    Seq<char>,
> {
    match member {
        Ok(Some(s)) => Ok(Some(s@)),
        Ok(None) => Ok(None),
        Err(e) => Err(e@),
    }
}

/// Parses `text` with `serde_json::from_str` into a `serde_json::Value`, and
/// reads its member `key` with `Value::get` and `Value::as_str`. Trusted: the
/// outcome is a function of the two texts alone.
#[verifier::external_body]
pub(crate) fn string_member(text: &str, key: &str) -> (r: Result<Option<String>, String>)
    ensures
        member_view(r) == json_string_member(text@, key@),
{
    match serde_json::from_str::<serde_json::Value>(text) {
        Ok(value) => match value.get(key) {
            Some(member) => match member.as_str() {
                Some(s) => Ok(Some(s.to_string())),
                None => Ok(None),
            },
            None => Ok(None),
        },
        Err(e) => Err(e.to_string()),
    }
}

/// What the agent's answer holds, given what was found under `result` in its
/// envelope.
pub open spec fn payload_of(member: Result<Option<Seq<char>>, Seq<char>>) -> Result<
    Seq<char>,
    ForgeErrorView,
> {
    match member {
        Err(e) => Err(ForgeErrorView::Claude("failed to parse agent output as JSON: "@ + e)),
        Ok(None) => Err(ForgeErrorView::Claude("agent output missing 'result' field"@)),
        Ok(Some(text)) => Ok(spec_extract_json(text)),
    }
}

/// The mathematical content of a text or a failure.
pub open spec fn outcome_view(r: Result<String, ForgeError>) -> Result<Seq<char>, ForgeErrorView> {
    match r {
        Ok(s) => Ok(s@),
        Err(e) => Err(e@),
    }
}

/// The JSON part of the agent's answer, given what was found under `result`
/// in its envelope.
pub fn envelope_payload(member: Result<Option<String>, String>) -> (r: Result<String, ForgeError>)
    ensures
        outcome_view(r) == payload_of(member_view(member)),
{
    match member {
        Err(e) => {
            let mut message = String::from_str("failed to parse agent output as JSON: ");
            message.append(e.as_str());
            Err(ForgeError::Claude(message))
        },
        Ok(None) => Err(ForgeError::Claude(String::from_str("agent output missing 'result' field"))),
        Ok(Some(text)) => Ok(String::from_str(extract_json(text.as_str()))),
    }
}

/// Unwraps the envelope `{"result": "<text>"}` that the agent answers in, and
/// extracts the JSON part of the text.
pub fn unwrap_envelope(raw: &str) -> (r: Result<String, ForgeError>)
    ensures
        outcome_view(r) == payload_of(json_string_member(raw@, "result"@)),
{
    envelope_payload(string_member(raw, "result"))
}

// ---------------------------------------------------------------------------
// Invoking the agent
// ---------------------------------------------------------------------------

/// How the agent is invoked: with the tools it may use.
#[derive(Debug)]
pub struct ClaudeRunner {
    allowed_tools: Vec<String>,
}

impl Clone for ClaudeRunner {
    fn clone(&self) -> (r: Self)
        ensures
            r.tools() == self.tools(),
    {
        let tools = self.allowed_tools.clone();
        assert(tools.deep_view() =~= self.allowed_tools.deep_view());
        ClaudeRunner { allowed_tools: tools }
    }
}

/// The arguments of one invocation.
pub open spec fn spec_command_args(
    tools: Seq<Seq<char>>,
    model: Seq<char>,
    system_prompt: Seq<char>,
) -> Seq<Seq<char>> {
    let fixed = seq![
        "-p"@,
        "--model"@,
        model,
        "--output-format"@,
        "json"@,
        "--allowedTools"@,
        join(tools, ","@),
    ];
    if system_prompt.len() > 0 {
        fixed + seq!["--append-system-prompt"@, system_prompt]
    } else {
        fixed
    }
}

impl ClaudeRunner {
    /// The tools that the agent may use.
    pub closed spec fn tools(&self) -> Seq<Seq<char>> {
        self.allowed_tools.deep_view()
    }

    /// An invoker whose agent may use `allowed_tools`.
    pub fn new(allowed_tools: Vec<String>) -> (r: Self)
        ensures
            r.tools() == allowed_tools.deep_view(),
    {
        ClaudeRunner { allowed_tools }
    }

    /// The tools that the agent may use.
    pub fn allowed_tools(&self) -> (r: &Vec<String>)
        ensures
            r.deep_view() == self.tools(),
    {
        &self.allowed_tools
    }

    /// The arguments of one invocation: print mode, the model, JSON output,
    /// the tools, and the system prompt unless it is empty.
    pub fn command_args(&self, model: &str, system_prompt: &str) -> (args: Vec<String>)
        ensures
            args.deep_view() == spec_command_args(self.tools(), model@, system_prompt@),
    {
        let mut args: Vec<String> = Vec::new();
        args.push(String::from_str("-p"));
        args.push(String::from_str("--model"));
        args.push(String::from_str(model));
        args.push(String::from_str("--output-format"));
        args.push(String::from_str("json"));
        args.push(String::from_str("--allowedTools"));
        args.push(join_with(&self.allowed_tools, ","));
        assert(args.deep_view() == seq![
            "-p"@,
            "--model"@,
            model@,
            "--output-format"@,
            "json"@,
            "--allowedTools"@,
            join(self.tools(), ","@),
        ]);
        if system_prompt.unicode_len() > 0 {
            let ghost fixed = args.deep_view();
            args.push(String::from_str("--append-system-prompt"));
            args.push(String::from_str(system_prompt));
            assert(args.deep_view() == fixed + seq!["--append-system-prompt"@, system_prompt@]);
        }
        args
    }
}

/// What an invocation that ran to its end yields.
pub open spec fn spec_agent_output(
    success: bool,
    status: Seq<char>,
    stdout: Seq<char>,
    stderr: Seq<char>,
) -> Result<Seq<char>, ForgeErrorView> {
    if success {
        Ok(stdout)
    } else {
        Err(ForgeErrorView::Claude("agent exited with "@ + status + ": "@ + stderr))
    }
}

/// What an invocation that ran to its end yields: what it printed where it
/// succeeded, and else a failure that names its exit status and what it
/// printed as errors.
pub fn agent_output(success: bool, status: &str, stdout: String, stderr: &str) -> (r: Result<
    String,
    ForgeError,
>)
    ensures
        outcome_view(r) == spec_agent_output(success, status@, stdout@, stderr@),
{
    if success {
        Ok(stdout)
    } else {
        let mut message = String::from_str("agent exited with ");
        message.append(status);
        message.append(": ");
        message.append(stderr);
        Err(ForgeError::Claude(message))
    }
}

/// What to do next while waiting for an invocation.
#[derive(Debug, Clone, Copy, PartialEq, Eq, Structural)]
pub enum WaitStep {
    /// The process has exited: collect what it printed.
    Collect,
    /// The time is up: end the process and report a timeout.
    Kill,
    /// Look again after the polling interval.
    Sleep,
}

/// What to do next while waiting for an invocation: a process that has exited
/// is collected, whatever the time; one that still runs is ended once the
/// time waited has reached the limit.
pub open spec fn spec_wait_step(exited: bool, waited_nanos: u128, limit_nanos: u128) -> WaitStep {
    if exited {
        WaitStep::Collect
    } else if waited_nanos >= limit_nanos {
        WaitStep::Kill
    } else {
        WaitStep::Sleep
    }
}

/// What to do next while waiting for an invocation.
pub fn wait_step(exited: bool, waited_nanos: u128, limit_nanos: u128) -> (r: WaitStep)
    ensures
        r == spec_wait_step(exited, waited_nanos, limit_nanos),
{
    if exited {
        WaitStep::Collect
    } else if waited_nanos >= limit_nanos {
        WaitStep::Kill
    } else {
        WaitStep::Sleep
    }
}

/// The failure that a timeout of `limit_secs` seconds is reported as.
pub fn timeout_error(limit_secs: u64) -> (e: ForgeError)
    ensures
        e@ == ForgeErrorView::Timeout("timed out after "@ + decimal(limit_secs as nat) + "s"@),
{
    let mut message = String::from_str("timed out after ");
    message.append(u64_to_string(limit_secs).as_str());
    message.append("s");
    ForgeError::Timeout(message)
}

// ---------------------------------------------------------------------------
// The answer of the consultation
// ---------------------------------------------------------------------------

/// What the consultation decided, before its plan is read.
#[derive(Debug)]
pub enum ConsultVerdict {
    /// It made a plan: the answer holds it.
    Resolved,
    /// It has a question for a human.
    NeedsClarification(String),
}

/// The mathematical content of a [`ConsultVerdict`].
pub enum ConsultVerdictView {
    Resolved,
    NeedsClarification(Seq<char>),
}

impl DeepView for ConsultVerdict {
    type V = ConsultVerdictView;

    open spec fn deep_view(&self) -> ConsultVerdictView {
        match self {
            ConsultVerdict::Resolved => ConsultVerdictView::Resolved,
            ConsultVerdict::NeedsClarification(m) => ConsultVerdictView::NeedsClarification(m@),
        }
    }
}

impl View for ConsultVerdict {
    type V = ConsultVerdictView;

    open spec fn view(&self) -> ConsultVerdictView {
        self.deep_view()
    }
}

/// The mathematical content of a verdict or a failure.
pub open spec fn verdict_view(r: Result<ConsultVerdict, ForgeError>) -> Result<
    ConsultVerdictView,
    ForgeErrorView,
> {
    match r {
        Ok(v) => Ok(v@),
        Err(e) => Err(e@),
    }
}

/// What the consultation decided, given what its answer holds under
/// `status` and under `message`. An answer that is no JSON is a failure.
/// Only the status `resolved` stands for a plan; with any other status, and
/// without one, the message is the question for a human, and where there is
/// no message either, the question is a general one.
pub open spec fn spec_verdict(
    status: Result<Option<Seq<char>>, Seq<char>>,
    message: Result<Option<Seq<char>>, Seq<char>>,
) -> Result<ConsultVerdictView, ForgeErrorView> {
    match status {
        Err(e) => Err(ForgeErrorView::Claude("consultation parse: "@ + e)),
        Ok(Some(word)) if word == "resolved"@ => Ok(ConsultVerdictView::Resolved),
        _ => match message {
            Ok(Some(question)) => Ok(ConsultVerdictView::NeedsClarification(question)),
            _ => Ok(
                ConsultVerdictView::NeedsClarification("Unable to determine implementation plan"@),
            ),
        },
    }
}

/// What the consultation decided, given what its answer holds under
/// `status` and under `message`.
pub fn verdict_of(
    status: Result<Option<String>, String>,
    message: Result<Option<String>, String>,
) -> (r: Result<ConsultVerdict, ForgeError>)
    ensures
        verdict_view(r) == spec_verdict(member_view(status), member_view(message)),
{
    let resolved = match &status {
        Err(e) => {
            let mut text = String::from_str("consultation parse: ");
            text.append(e.as_str());
            return Err(ForgeError::Claude(text));
        },
        Ok(Some(word)) => same_text(word.as_str(), "resolved"),
        Ok(None) => false,
    };
    if resolved {
        Ok(ConsultVerdict::Resolved)
    } else {
        match message {
            Ok(Some(question)) => Ok(ConsultVerdict::NeedsClarification(question)),
            _ => Ok(
                ConsultVerdict::NeedsClarification(
                    String::from_str("Unable to determine implementation plan"),
                ),
            ),
        }
    }
}

/// What the consultation decided, read from the JSON part of its answer.
pub fn consult_verdict(payload: &str) -> (r: Result<ConsultVerdict, ForgeError>)
    ensures
        verdict_view(r) == spec_verdict(
            json_string_member(payload@, "status"@),
            json_string_member(payload@, "message"@),
        ),
{
    let status = string_member(payload, "status");
    let message = string_member(payload, "message");
    verdict_of(status, message)
}

} // verus!
