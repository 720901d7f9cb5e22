//! Reading the planner's reply: locating the JSON object in free-form text, decoding
//! it leniently and normalising the tool decision.
use vstd::prelude::*;
use crate::agent_types::{
    OpsAgentMessage, OpsAgentRole, OpsAgentToolKind, PlannedAgentReply, PlannedToolAction,
};
use crate::agent_store::opt_view;
use crate::remote_path::slice_range;
use crate::error::{AppError, AppResult};
use crate::text::{first_pos, is_first_pos, is_last_pos, last_pos};
use crate::text::{
    chars_of, copy_str, i32_text, int_text, is_blank, is_blank_str, string_of, trim, trim_chars,
    trim_end, trim_start, trim_str,
};
use vstd::string::StringExecFns;

verus! {

/// The text is one JSON document whose root is an object.
pub uninterp spec fn json_object_doc(text: Seq<char>) -> bool;

/// Member `key` of the JSON object document `text`, read as optional text: `Some(None)`
/// when it is absent or null, `Some(Some(s))` when it is the string `s`, and `None` when
/// it has another type.
pub uninterp spec fn json_doc_text_member(text: Seq<char>, key: Seq<char>) -> Option<Option<Seq<char>>>;

/// Member `key` of the JSON object document `text`, read as an optional object:
/// `Some(false)` when it is absent or null, `Some(true)` when it is an object, and
/// `None` when it has another type.
pub uninterp spec fn json_doc_object_member(text: Seq<char>, key: Seq<char>) -> Option<bool>;

/// Member `inner` of the object held in member `outer` of the JSON document `text`,
/// read as optional text (as `json_doc_text_member` reads a member of the root).
pub uninterp spec fn json_doc_nested_text_member(text: Seq<char>, outer: Seq<char>, inner: Seq<char>) -> Option<Option<Seq<char>>>;

/// The view of an optional optional string.
pub open spec fn opt2_view(o: Option<Option<String>>) -> Option<Option<Seq<char>>> {
    match o {
        Some(inner) => Some(opt_view(inner)),
        None => None,
    }
}

/// Relies on `serde_json::from_str` and `Value::is_object`: whether `text` parses as
/// one JSON document whose root is an object.
#[verifier::external_body]
fn doc_is_object(text: &str) -> (r: bool)
    ensures
        r == json_object_doc(text@),
{
    serde_json::from_str::<serde_json::Value>(text).map(|v| v.is_object()).unwrap_or(false)
}

/// Relies on `serde_json::from_str` and `Value::get`: member `key` of the document's
/// root as optional text (see `json_doc_text_member`).
#[verifier::external_body]
fn doc_text_member(text: &str, key: &str) -> (r: Option<Option<String>>)
    ensures
        opt2_view(r) == json_doc_text_member(text@, key@),
{
    match serde_json::from_str::<serde_json::Value>(text).ok().as_ref().and_then(|v| v.get(key)) {
        None => Some(None),
        Some(serde_json::Value::Null) => Some(None),
        Some(serde_json::Value::String(s)) => Some(Some(s.clone())),
        Some(_) => None,
    }
}

/// Relies on `serde_json::from_str` and `Value::get`: member `key` of the document's
/// root as an optional object (see `json_doc_object_member`).
#[verifier::external_body]
fn doc_object_member(text: &str, key: &str) -> (r: Option<bool>)
    ensures
        r == json_doc_object_member(text@, key@),
{
    match serde_json::from_str::<serde_json::Value>(text).ok().as_ref().and_then(|v| v.get(key)) {
        None => Some(false),
        Some(serde_json::Value::Null) => Some(false),
        Some(serde_json::Value::Object(_)) => Some(true),
        Some(_) => None,
    }
}

/// Relies on `serde_json::from_str` and `Value::get`: member `inner` of the object in
/// member `outer` as optional text (see `json_doc_nested_text_member`).
#[verifier::external_body]
fn doc_nested_text_member(text: &str, outer: &str, inner: &str) -> (r: Option<Option<String>>)
    ensures
        opt2_view(r) == json_doc_nested_text_member(text@, outer@, inner@),
{
    let doc = serde_json::from_str::<serde_json::Value>(text).ok();
    match doc.as_ref().and_then(|v| v.get(outer)).and_then(|o| o.get(inner)) {
        None => Some(None),
        Some(serde_json::Value::Null) => Some(None),
        Some(serde_json::Value::String(s)) => Some(Some(s.clone())),
        Some(_) => None,
    }
}

/// A decoded plan as plain values: the optional reply, and the optional tool with its
/// optional kind, command and reason.
pub type PlanView = (Option<Seq<char>>, Option<(Option<Seq<char>>, Option<Seq<char>>, Option<Seq<char>>)>);

/// The plan the JSON document `text` holds: a root object whose `reply` is optional text
/// and whose `tool` is absent, null or an object with optional-text `kind`, `command`
/// and `reason`; `None` when the document does not have that shape.
pub open spec fn decoded_plan(text: Seq<char>) -> Option<PlanView> {
    if !json_object_doc(text) {
        None
    } else {
        match (json_doc_text_member(text, "reply"@), json_doc_object_member(text, "tool"@)) {
            (Some(reply), Some(false)) => Some((reply, None)),
            (Some(reply), Some(true)) => match (
                json_doc_nested_text_member(text, "tool"@, "kind"@),
                json_doc_nested_text_member(text, "tool"@, "command"@),
                json_doc_nested_text_member(text, "tool"@, "reason"@),
            ) {
                (Some(kind), Some(command), Some(reason)) => Some((reply, Some((kind, command, reason)))),
                _ => None,
            },
            _ => None,
        }
    }
}

/// The text a reply is decoded from: the JSON object it holds, else the trimmed text.
pub open spec fn json_source(raw: Seq<char>) -> Seq<char> {
    match json_span(raw) {
        Some(span) => span,
        None => trim(raw),
    }
}

/// The planner's tool object as decoded: every member optional.
#[derive(Debug, Clone)]
pub struct PlanToolPayload {
    pub kind: Option<String>,
    pub command: Option<String>,
    pub reason: Option<String>,
}

/// The planner's JSON reply as decoded: every member optional.
#[derive(Debug, Clone)]
pub struct PlanPayload {
    pub reply: Option<String>,
    pub tool: Option<PlanToolPayload>,
}

/// A chat message as the completion endpoint takes it.
#[derive(Debug, Clone)]
pub struct WireChatMessage {
    pub role: String,
    pub content: String,
}

/// The JSON object the reply text holds: the whole trimmed text when it is braced,
/// otherwise the span from its first `{` to its last `}`, if that `}` comes later.
pub open spec fn json_span(raw: Seq<char>) -> Option<Seq<char>> {
    let t = trim(raw);
    if t.len() > 0 && t[0] == '{' && t.last() == '}' {
        Some(t)
    } else if exists|a: int, b: int| is_first_pos(t, '{', a) && is_last_pos(t, '}', b) && a < b {
        let ab = choose|ab: (int, int)|
            is_first_pos(t, '{', ab.0) && is_last_pos(t, '}', ab.1) && ab.0 < ab.1;
        Some(t.subrange(ab.0, ab.1 + 1))
    } else {
        None
    }
}

/// ASCII case-insensitive equality with a lower-case word.
pub open spec fn eq_ignore_ascii_case(s: Seq<char>, lower: Seq<char>) -> bool {
    &&& s.len() == lower.len()
    &&& forall|i: int|
        0 <= i < s.len() ==> (s[i] == lower[i] || ('a' <= lower[i] && lower[i] <= 'z' && (
        s[i] as u32) == (lower[i] as u32) - 32))
}

/// The tool a kind name selects.
pub open spec fn tool_kind_named(name: Seq<char>) -> OpsAgentToolKind {
    let t = trim(name);
    if eq_ignore_ascii_case(t, "read_shell"@) {
        OpsAgentToolKind::ReadShell
    } else if eq_ignore_ascii_case(t, "write_shell"@) {
        OpsAgentToolKind::WriteShell
    } else {
        OpsAgentToolKind::NoTool
    }
}

/// The optional text, trimmed, absent when blank.
pub open spec fn nonblank(o: Option<Seq<char>>) -> Option<Seq<char>> {
    match o {
        Some(s) => if trim(s).len() == 0 {
            None
        } else {
            Some(trim(s))
        },
        None => None,
    }
}

/// The optional text, trimmed.
pub open spec fn trimmed_opt(o: Option<Seq<char>>) -> Option<Seq<char>> {
    match o {
        Some(s) => Some(trim(s)),
        None => None,
    }
}

/// The plain values of a decoded plan.
pub open spec fn payload_view(p: PlanPayload) -> PlanView {
    (opt_view(p.reply), match p.tool {
        Some(t) => Some((opt_view(t.kind), opt_view(t.command), opt_view(t.reason))),
        None => None,
    })
}

/// The plain values of an optional decoded plan.
pub open spec fn decoded_view(p: Option<PlanPayload>) -> Option<PlanView> {
    match p {
        Some(q) => Some(payload_view(q)),
        None => None,
    }
}

/// `r` is the normalised reading of plan `v`: trimmed reply; a tool picked by name only
/// when a non-blank command comes with it; trimmed command and reason.
pub open spec fn normalized_view(v: PlanView, r: PlannedAgentReply) -> bool {
    let reply = match v.0 {
        Some(s) => s,
        None => Seq::empty(),
    };
    let kind_name = match v.1 {
        Some(t) => match t.0 {
            Some(k) => k,
            None => Seq::empty(),
        },
        None => "none"@,
    };
    let command = match v.1 {
        Some(t) => t.1,
        None => None,
    };
    let reason = match v.1 {
        Some(t) => t.2,
        None => None,
    };
    &&& r.reply@ == trim(reply)
    &&& opt_view(r.tool.command) == nonblank(command)
    &&& r.tool.kind == (if nonblank(command) is None {
        OpsAgentToolKind::NoTool
    } else {
        tool_kind_named(kind_name)
    })
    &&& opt_view(r.tool.reason) == trimmed_opt(reason)
}

/// `r` is the normalised reading of `p` (see `normalized_view`).
pub open spec fn normalized_plan(p: PlanPayload, r: PlannedAgentReply) -> bool {
    normalized_view(payload_view(p), r)
}

/// The reading of a reply that is no JSON the planner format allows: the whole
/// trimmed text as the answer, with no tool.
pub open spec fn raw_plan(raw: Seq<char>, r: PlannedAgentReply) -> bool {
    &&& r.reply@ == trim(raw)
    &&& r.tool.kind == OpsAgentToolKind::NoTool
    &&& r.tool.command is None
    &&& r.tool.reason is None
}

/// The JSON object that a reply text holds (see `json_span`).
pub fn extract_json_payload(raw: &str) -> (r: Option<String>)
    ensures
        opt_view(r) == json_span(raw@),
{
    let chars = chars_of(raw);
    let t = trim_chars(chars.as_slice());
    let n = t.len();
    if n > 0 && t[0] == '{' && t[n - 1] == '}' {
        return Some(string_of(t.as_slice()));
    }
    let start = first_pos(t.as_slice(), '{');
    let end = last_pos(t.as_slice(), '}');
    match (start, end) {
        (Some(a), Some(b)) => {
            if b > a {
                assert(is_first_pos(t@, '{', a as int) && is_last_pos(t@, '}', b as int));
                let ghost w = (a as int, b as int);
                assert(is_first_pos(t@, '{', w.0) && is_last_pos(t@, '}', w.1) && w.0 < w.1);
                let ghost ab = choose|ab: (int, int)|
                    is_first_pos(t@, '{', ab.0) && is_last_pos(t@, '}', ab.1) && ab.0 < ab.1;
                assert(is_first_pos(t@, '{', a as int) && is_last_pos(t@, '}', b as int));
                assert(ab.0 == a) by {
                    if ab.0 < a {
                        assert(t@[ab.0] != '{');
                    }
                    if a < ab.0 {
                        assert(t@[a as int] != '{');
                    }
                }
                assert(ab.1 == b) by {
                    if ab.1 < b {
                        assert(t@[b as int] != '}');
                    }
                    if b < ab.1 {
                        assert(t@[ab.1] != '}');
                    }
                }
                let span = slice_range(t.as_slice(), a, b + 1);
                Some(string_of(span.as_slice()))
            } else {
                assert forall|x: int, y: int|
                    is_first_pos(t@, '{', x) && is_last_pos(t@, '}', y) implies !(x < y) by {
                    if x < a {
                        assert(t@[x] != '{');
                    }
                    if a < x {
                        assert(t@[a as int] != '{');
                    }
                    if y < b {
                        assert(t@[b as int] != '}');
                    }
                    if b < y {
                        assert(t@[y] != '}');
                    }
                }
                None
            }
        },
        _ => None,
    }
}

pub(crate) fn ascii_lower_equals(s: &[char], lower: &[char]) -> (r: bool)
    ensures
        r == eq_ignore_ascii_case(s@, lower@),
{
    if s.len() != lower.len() {
        return false;
    }
    let mut i: usize = 0;
    while i < s.len()
        invariant
            i <= s@.len(),
            s@.len() == lower@.len(),
            forall|j: int|
                0 <= j < i ==> (s@[j] == lower@[j] || ('a' <= lower@[j] && lower@[j] <= 'z' && (
                s@[j] as u32) == (lower@[j] as u32) - 32)),
        decreases s@.len() - i,
    {
        let a = s[i];
        let b = lower[i];
        let same = a == b || ('a' <= b && b <= 'z' && (a as u32) == (b as u32) - 32);
        if !same {
            return false;
        }
        i = i + 1;
    }
    true
}

fn nonblank_copy(o: &Option<String>) -> (r: Option<String>)
    ensures
        opt_view(r) == nonblank(opt_view(*o)),
{
    match o {
        Some(s) => {
            let t = trim_str(s.as_str());
            if t.as_str().is_empty() {
                None
            } else {
                Some(t)
            }
        },
        None => None,
    }
}

fn trimmed_copy(o: &Option<String>) -> (r: Option<String>)
    ensures
        opt_view(r) == trimmed_opt(opt_view(*o)),
{
    match o {
        Some(s) => Some(trim_str(s.as_str())),
        None => None,
    }
}

/// The normalised reading of a decoded plan (see `normalized_plan`): a tool kind is
/// kept only when a non-blank command comes with it.
pub fn normalize_planned_reply(payload: PlanPayload) -> (r: PlannedAgentReply)
    ensures
        normalized_plan(payload, r),
{
    let reply = match &payload.reply {
        Some(s) => trim_str(s.as_str()),
        None => String::new(),
    };
    let (kind, command, reason) = match &payload.tool {
        Some(tool) => {
            let name = match &tool.kind {
                Some(k) => chars_of(k.as_str()),
                None => Vec::new(),
            };
            let name_t = trim_chars(name.as_slice());
            let read = chars_of("read_shell");
            let write = chars_of("write_shell");
            let kind = if ascii_lower_equals(name_t.as_slice(), read.as_slice()) {
                OpsAgentToolKind::ReadShell
            } else if ascii_lower_equals(name_t.as_slice(), write.as_slice()) {
                OpsAgentToolKind::WriteShell
            } else {
                OpsAgentToolKind::NoTool
            };
            (kind, nonblank_copy(&tool.command), trimmed_copy(&tool.reason))
        },
        None => {
            proof {
                let t = trim("none"@);
                reveal_strlit("none");
                reveal_strlit("read_shell");
                reveal_strlit("write_shell");
                assert(trim_start("none"@) == "none"@);
                assert(trim_end("none"@) == "none"@);
                assert(!eq_ignore_ascii_case("none"@, "read_shell"@));
                assert(!eq_ignore_ascii_case("none"@, "write_shell"@));
            }
            (OpsAgentToolKind::NoTool, None, None)
        },
    };
    let kind = if command.is_none() {
        OpsAgentToolKind::NoTool
    } else {
        kind
    };
    PlannedAgentReply { reply, tool: PlannedToolAction { kind, command, reason } }
}

/// Decodes the planner's JSON object: `reply` and the `tool` object with `kind`,
/// `command` and `reason`, each absent, null or a string (see `decoded_plan`).
pub fn decode_plan_payload(text: &str) -> (r: Option<PlanPayload>)
    ensures
        decoded_view(r) == decoded_plan(text@),
{
    if !doc_is_object(text) {
        return None;
    }
    let reply = match doc_text_member(text, "reply") {
        Some(o) => o,
        None => {
            return None;
        },
    };
    let tool = match doc_object_member(text, "tool") {
        None => {
            return None;
        },
        Some(false) => None,
        Some(true) => {
            let kind = match doc_nested_text_member(text, "tool", "kind") {
                Some(o) => o,
                None => {
                    return None;
                },
            };
            let command = match doc_nested_text_member(text, "tool", "command") {
                Some(o) => o,
                None => {
                    return None;
                },
            };
            let reason = match doc_nested_text_member(text, "tool", "reason") {
                Some(o) => o,
                None => {
                    return None;
                },
            };
            Some(PlanToolPayload { kind, command, reason })
        },
    };
    Some(PlanPayload { reply, tool })
}

/// The plan read from a reply: the normalised decoded object when there is one,
/// otherwise the whole trimmed text with no tool.
pub fn plan_from_decoded(raw: &str, decoded: Option<PlanPayload>) -> (r: PlannedAgentReply)
    ensures
        decoded matches Some(p) ==> normalized_plan(p, r),
        decoded is None ==> raw_plan(raw@, r),
{
    match decoded {
        Some(payload) => normalize_planned_reply(payload),
        None => PlannedAgentReply {
            reply: trim_str(raw),
            tool: PlannedToolAction { kind: OpsAgentToolKind::NoTool, command: None, reason: None },
        },
    }
}

/// Reads a planner reply leniently: the JSON object found in it (or the trimmed text)
/// is decoded and normalised; text that does not decode becomes the answer, with no tool.
/// A tool is only ever chosen together with a command.
pub fn parse_plan_payload(raw: &str) -> (r: PlannedAgentReply)
    ensures
        match decoded_plan(json_source(raw@)) {
            Some(v) => normalized_view(v, r),
            None => raw_plan(raw@, r),
        },
        r.tool.kind != OpsAgentToolKind::NoTool ==> r.tool.command is Some,
{
    let json_text = match extract_json_payload(raw) {
        Some(text) => text,
        None => trim_str(raw),
    };
    let decoded = decode_plan_payload(json_text.as_str());
    plan_from_decoded(raw, decoded)
}

/// The wire role of a message: a tool result is sent as the user's.
pub open spec fn wire_role(role: OpsAgentRole) -> Seq<char> {
    match role {
        OpsAgentRole::System => "system"@,
        OpsAgentRole::User => "user"@,
        OpsAgentRole::Assistant => "assistant"@,
        OpsAgentRole::Tool => "user"@,
    }
}

/// The wire text of a message: a tool result is marked as one.
pub open spec fn wire_content(role: OpsAgentRole, content: Seq<char>) -> Seq<char> {
    if role == OpsAgentRole::Tool {
        "[tool-result]\n"@ + content
    } else {
        content
    }
}

/// A history message as the completion endpoint takes it.
pub fn convert_history_message(item: &OpsAgentMessage) -> (r: WireChatMessage)
    ensures
        r.role@ == wire_role(item.role),
        r.content@ == wire_content(item.role, item.content@),
{
    let role = match item.role {
        OpsAgentRole::System => copy_str("system"),
        OpsAgentRole::User => copy_str("user"),
        OpsAgentRole::Assistant => copy_str("assistant"),
        OpsAgentRole::Tool => copy_str("user"),
    };
    let content = if item.role == OpsAgentRole::Tool {
        let mut c = copy_str("[tool-result]\n");
        c.append(item.content.as_str());
        c
    } else {
        item.content.clone()
    };
    WireChatMessage { role, content }
}

/// Refuses provider settings with a blank base URL, key or model.
pub fn validate_ai_config(base_url: &str, api_key: &str, model: &str) -> (r: AppResult<()>)
    ensures
        r is Ok <==> !is_blank(base_url@) && !is_blank(api_key@) && !is_blank(model@),
        r matches Err(e) ==> e is Validation,
{
    if is_blank_str(base_url) {
        return Err(AppError::Validation(copy_str("baseUrl cannot be empty")));
    }
    if is_blank_str(api_key) {
        return Err(AppError::Validation(copy_str("apiKey cannot be empty")));
    }
    if is_blank_str(model) {
        return Err(AppError::Validation(copy_str("model cannot be empty")));
    }
    Ok(())
}

/// The planner's instructions, placed between the configured prompt and the session hint.
pub open spec fn planner_rules() -> Seq<char> {
    "\n\nYou are an operations agent planner. Decide whether a tool call is needed.\nReturn STRICT JSON only without markdown:\n{\"reply\":\"...\",\"tool\":{\"kind\":\"none|read_shell|write_shell\",\"command\":\"...\",\"reason\":\"...\"}}\nRules:\n1) read_shell: use only for safe read-only diagnostics like ls/cat/grep/df/free/ps/top/uptime.\n2) write_shell: use for any command that mutates system state.\n3) If no command needed, set kind to \"none\" and command empty.\n4) reply must be concise and user-facing.\n"@
}

/// The line naming the session the agent works in.
pub open spec fn session_hint(session_id: Option<Seq<char>>) -> Seq<char> {
    match session_id {
        Some(id) => "Current SSH session id: "@ + id,
        None => "Current SSH session id: unavailable"@,
    }
}

/// The planner's system prompt: the configured prompt, the rules and the session hint.
pub fn build_planner_system_prompt(system_prompt: &str, session_id: Option<&str>) -> (r: String)
    ensures
        r@ == trim(system_prompt@) + planner_rules() + session_hint(
            crate::agent_store::opt_str_view(session_id),
        ),
{
    let mut out = trim_str(system_prompt);
    out.append("\n\nYou are an operations agent planner. Decide whether a tool call is needed.\nReturn STRICT JSON only without markdown:\n{\"reply\":\"...\",\"tool\":{\"kind\":\"none|read_shell|write_shell\",\"command\":\"...\",\"reason\":\"...\"}}\nRules:\n1) read_shell: use only for safe read-only diagnostics like ls/cat/grep/df/free/ps/top/uptime.\n2) write_shell: use for any command that mutates system state.\n3) If no command needed, set kind to \"none\" and command empty.\n4) reply must be concise and user-facing.\n");
    match session_id {
        Some(id) => {
            out.append("Current SSH session id: ");
            out.append(id);
        },
        None => {
            out.append("Current SSH session id: unavailable");
        },
    }
    out
}

/// What the summariser is told after its configured prompt.
pub open spec fn summary_rules() -> Seq<char> {
    "\n\nGiven shell tool execution result, provide a concise operations answer in markdown.\nInclude: what happened, key evidence, and safe next step command when useful."@
}

/// The summariser's system prompt.
pub fn build_tool_summary_prompt(system_prompt: &str) -> (r: String)
    ensures
        r@ == trim(system_prompt@) + summary_rules(),
{
    let mut out = trim_str(system_prompt);
    out.append("\n\nGiven shell tool execution result, provide a concise operations answer in markdown.\nInclude: what happened, key evidence, and safe next step command when useful.");
    out
}

/// The name a tool kind is reported under.
pub open spec fn tool_kind_label(kind: OpsAgentToolKind) -> Seq<char> {
    match kind {
        OpsAgentToolKind::NoTool => "None"@,
        OpsAgentToolKind::ReadShell => "ReadShell"@,
        OpsAgentToolKind::WriteShell => "WriteShell"@,
    }
}

/// The report of a tool run handed to the summariser.
pub open spec fn tool_result_text(
    kind: OpsAgentToolKind,
    command: Seq<char>,
    output: Seq<char>,
    exit_code: Option<i32>,
) -> Seq<char> {
    "Tool execution result\nkind: "@ + tool_kind_label(kind) + "\ncommand: "@ + command
        + "\nexitCode: "@ + (match exit_code {
        Some(c) => int_text(c as int),
        None => "n/a"@,
    }) + "\noutput:\n"@ + output
}

/// The report of a tool run handed to the summariser (see `tool_result_text`).
pub fn build_tool_result_message(
    kind: OpsAgentToolKind,
    command: &str,
    output: &str,
    exit_code: Option<i32>,
) -> (r: String)
    ensures
        r@ == tool_result_text(kind, command@, output@, exit_code),
{
    let mut out = copy_str("Tool execution result\nkind: ");
    match kind {
        OpsAgentToolKind::NoTool => out.append("None"),
        OpsAgentToolKind::ReadShell => out.append("ReadShell"),
        OpsAgentToolKind::WriteShell => out.append("WriteShell"),
    }
    out.append("\ncommand: ");
    out.append(command);
    out.append("\nexitCode: ");
    match exit_code {
        Some(c) => {
            let t = i32_text(c);
            out.append(t.as_str());
        },
        None => out.append("n/a"),
    }
    out.append("\noutput:\n");
    out.append(output);
    out
}

fn wire(role: &str, content: String) -> (r: WireChatMessage)
    ensures
        r.role@ == role@,
        r.content == content,
{
    WireChatMessage { role: copy_str(role), content }
}

/// The messages of a planning request: the system prompt, the history in order and
/// the trimmed question.
pub fn planner_messages(
    system_prompt: &str,
    session_id: Option<&str>,
    history: &[OpsAgentMessage],
    question: &str,
) -> (r: Vec<WireChatMessage>)
    ensures
        r@.len() == history@.len() + 2,
        r@[0].role@ == "system"@,
        r@[0].content@ == trim(system_prompt@) + planner_rules() + session_hint(
            crate::agent_store::opt_str_view(session_id),
        ),
        forall|i: int|
            0 <= i < history@.len() ==> (#[trigger] r@[i + 1]).role@ == wire_role(history@[i].role)
                && r@[i + 1].content@ == wire_content(history@[i].role, history@[i].content@),
        r@.last().role@ == "user"@,
        r@.last().content@ == trim(question@),
{
    let mut out: Vec<WireChatMessage> = Vec::new();
    out.push(wire("system", build_planner_system_prompt(system_prompt, session_id)));
    let ghost before = out@;
    assert(before.len() == 1);
    push_history(&mut out, history);
    let ghost mid = out@;
    out.push(wire("user", trim_str(question)));
    assert forall|i: int| 0 <= i < history@.len() implies (#[trigger] out@[i + 1]).role@ == wire_role(
        history@[i].role,
    ) && out@[i + 1].content@ == wire_content(history@[i].role, history@[i].content@) by {
        assert(out@[i + 1] == mid[before.len() + i]);
    }
    out
}

/// The messages of a summary request: the summary prompt, the history in order and
/// the tool report.
pub fn summary_messages(
    system_prompt: &str,
    history: &[OpsAgentMessage],
    kind: OpsAgentToolKind,
    command: &str,
    output: &str,
    exit_code: Option<i32>,
) -> (r: Vec<WireChatMessage>)
    ensures
        r@.len() == history@.len() + 2,
        r@[0].role@ == "system"@,
        r@[0].content@ == trim(system_prompt@) + summary_rules(),
        forall|i: int|
            0 <= i < history@.len() ==> (#[trigger] r@[i + 1]).role@ == wire_role(history@[i].role)
                && r@[i + 1].content@ == wire_content(history@[i].role, history@[i].content@),
        r@.last().role@ == "user"@,
        r@.last().content@ == tool_result_text(kind, command@, output@, exit_code),
{
    let mut out: Vec<WireChatMessage> = Vec::new();
    out.push(wire("system", build_tool_summary_prompt(system_prompt)));
    let ghost before = out@;
    assert(before.len() == 1);
    push_history(&mut out, history);
    let ghost mid = out@;
    out.push(wire("user", build_tool_result_message(kind, command, output, exit_code)));
    assert forall|i: int| 0 <= i < history@.len() implies (#[trigger] out@[i + 1]).role@ == wire_role(
        history@[i].role,
    ) && out@[i + 1].content@ == wire_content(history@[i].role, history@[i].content@) by {
        assert(out@[i + 1] == mid[before.len() + i]);
    }
    out
}

fn push_history(out: &mut Vec<WireChatMessage>, history: &[OpsAgentMessage])
    ensures
        final(out)@.len() == old(out)@.len() + history@.len(),
        forall|i: int| 0 <= i < old(out)@.len() ==> (#[trigger] final(out)@[i]) == old(out)@[i],
        forall|i: int|
            0 <= i < history@.len() ==> (#[trigger] final(out)@[old(out)@.len() + i]).role@
                == wire_role(history@[i].role) && final(out)@[old(out)@.len() + i].content@
                == wire_content(history@[i].role, history@[i].content@),
{
    let ghost start = out@;
    let mut i: usize = 0;
    while i < history.len()
        invariant
            i <= history@.len(),
            out@.len() == start.len() + i,
            forall|j: int| 0 <= j < start.len() ==> (#[trigger] out@[j]) == start[j],
            forall|j: int|
                0 <= j < i ==> (#[trigger] out@[start.len() + j]).role@ == wire_role(
                    history@[j].role,
                ) && out@[start.len() + j].content@ == wire_content(
                    history@[j].role,
                    history@[j].content@,
                ),
        decreases history@.len() - i,
    {
        out.push(convert_history_message(&history[i]));
        i = i + 1;
    }
}

} // verus!
