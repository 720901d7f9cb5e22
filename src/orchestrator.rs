//! One chat turn of the operations agent, as a sequence of decisions, and the
//! resolution of pending actions. Planner calls and command runs are made by the
//! caller between the steps; each step says what it needs next.
use vstd::prelude::*;
use crate::agent_store::{
    action_resolved, answered, conversation_key, conversation_stamped, lemma_update_keeps_first,
    message_appended, opt_view, OpsAgentStore,
};
use crate::agent_types::{
    OpsAgentActionStatus, OpsAgentChatAccepted, OpsAgentChatInput, OpsAgentPendingAction,
    OpsAgentResolveActionInput, OpsAgentResolveActionResult, OpsAgentRole, OpsAgentStreamEvent,
    OpsAgentStreamStage, OpsAgentToolKind, PlannedAgentReply,
};
use crate::clock::now_rfc3339;
use crate::error::{AppError, AppResult};
use crate::ids::new_id;
use crate::keyed::first_key_index;
use crate::shell::CommandExecutionResult;
use crate::text::{
    chars_of, copy_str, i32_text, int_text, is_blank, is_blank_str, push_char, trim,
    trim_end, trim_end_str, trim_str, views,
};
use vstd::string::StringExecFns;

verus! {

/// How many characters each streamed piece of an answer holds.
pub const STREAM_CHUNK_CHARS: usize = 36;

/// `s` cut into pieces of `n` characters, the last one possibly shorter.
pub open spec fn chunks_of(s: Seq<char>, n: nat) -> Seq<Seq<char>>
    decreases s.len(),
{
    if s.len() == 0 || n == 0 {
        Seq::empty()
    } else if s.len() <= n {
        seq![s]
    } else {
        seq![s.take(n as int)] + chunks_of(s.skip(n as int), n)
    }
}

/// The reply, or `fallback` when the reply is blank.
pub open spec fn reply_or(reply: Seq<char>, fallback: Seq<char>) -> Seq<char> {
    if is_blank(reply) {
        fallback
    } else {
        reply
    }
}

/// The report of a command run: its non-blank standard output and error, each under a
/// heading (or a marker when both are blank), then the exit code, separated by blank lines.
pub open spec fn execution_report(stdout: Seq<char>, stderr: Seq<char>, exit_code: i32) -> Seq<
    char,
> {
    let out_part = if !is_blank(stdout) {
        "stdout:\n"@ + trim_end(stdout) + "\n\n"@
    } else {
        Seq::empty()
    };
    let err_part = if !is_blank(stderr) {
        "stderr:\n"@ + trim_end(stderr) + "\n\n"@
    } else {
        Seq::empty()
    };
    let empty_part = if is_blank(stdout) && is_blank(stderr) {
        "<empty output>\n\n"@
    } else {
        Seq::empty()
    };
    out_part + err_part + empty_part + "exitCode: "@ + int_text(exit_code as int)
}

/// Cuts `text` into pieces of `chunk_size` characters for streaming; nothing for an
/// empty text or a zero size.
pub fn split_stream_chunks(text: &str, chunk_size: usize) -> (r: Vec<String>)
    ensures
        views(r@) == chunks_of(text@, chunk_size as nat),
{
    let chars = chars_of(text);
    let n = chars.len();
    let mut out: Vec<String> = Vec::new();
    if n == 0 || chunk_size == 0 {
        assert(views(out@) =~= Seq::<Seq<char>>::empty());
        return out;
    }
    let mut i: usize = 0;
    assert(chars@.skip(0) =~= chars@);
    assert(views(out@) + chunks_of(chars@.skip(0), chunk_size as nat) =~= chunks_of(
        chars@,
        chunk_size as nat,
    ));
    while i < n
        invariant
            i <= n,
            n == chars@.len(),
            chars@ == text@,
            chunk_size > 0,
            views(out@) + chunks_of(chars@.skip(i as int), chunk_size as nat) == chunks_of(
                chars@,
                chunk_size as nat,
            ),
        decreases n - i,
    {
        let ghost rest = chars@.skip(i as int);
        let end = if n - i <= chunk_size {
            n
        } else {
            i + chunk_size
        };
        let mut piece = String::new();
        let mut k: usize = i;
        while k < end
            invariant
                i <= k <= end <= n,
                n == chars@.len(),
                piece@ == chars@.subrange(i as int, k as int),
            decreases end - k,
        {
            push_char(&mut piece, chars[k]);
            k = k + 1;
            assert(piece@ =~= chars@.subrange(i as int, k as int));
        }
        let ghost old_out = out@;
        out.push(piece);
        proof {
            assert(views(out@) =~= views(old_out).push(piece@));
            if n - i <= chunk_size {
                assert(piece@ =~= rest);
                assert(chunks_of(rest, chunk_size as nat) == seq![rest]);
                assert(chars@.skip(end as int) =~= Seq::<char>::empty());
                assert(chunks_of(chars@.skip(end as int), chunk_size as nat) =~= Seq::<
                    Seq<char>,
                >::empty());
                assert(views(out@) + chunks_of(chars@.skip(end as int), chunk_size as nat)
                    =~= views(old_out) + chunks_of(rest, chunk_size as nat));
            } else {
                assert(piece@ =~= rest.take(chunk_size as int));
                assert(rest.skip(chunk_size as int) =~= chars@.skip(end as int));
                assert(views(out@) + chunks_of(chars@.skip(end as int), chunk_size as nat)
                    =~= views(old_out) + chunks_of(rest, chunk_size as nat));
            }
        }
        i = end;
    }
    assert(chars@.skip(n as int) =~= Seq::<char>::empty());
    assert(views(out@) + Seq::<Seq<char>>::empty() =~= views(out@));
    out
}

/// The reply, or `fallback` when the reply is blank.
pub fn normalized_reply(reply: String, fallback: &str) -> (r: String)
    ensures
        r@ == reply_or(reply@, fallback@),
{
    if is_blank_str(reply.as_str()) {
        copy_str(fallback)
    } else {
        reply
    }
}

/// The report of a command run (see `execution_report`).
pub fn format_execution_output(stdout: &str, stderr: &str, exit_code: i32) -> (r: String)
    ensures
        r@ == execution_report(stdout@, stderr@, exit_code),
{
    let mut out = String::new();
    let out_blank = is_blank_str(stdout);
    let err_blank = is_blank_str(stderr);
    if !out_blank {
        out.append("stdout:\n");
        let t = trim_end_str(stdout);
        out.append(t.as_str());
        out.append("\n\n");
    }
    if !err_blank {
        out.append("stderr:\n");
        let t = trim_end_str(stderr);
        out.append(t.as_str());
        out.append("\n\n");
    }
    if out_blank && err_blank {
        out.append("<empty output>\n\n");
    }
    out.append("exitCode: ");
    let code = i32_text(exit_code);
    out.append(code.as_str());
    proof {
        let out_part = if !is_blank(stdout@) {
            "stdout:\n"@ + trim_end(stdout@) + "\n\n"@
        } else {
            Seq::empty()
        };
        let err_part = if !is_blank(stderr@) {
            "stderr:\n"@ + trim_end(stderr@) + "\n\n"@
        } else {
            Seq::empty()
        };
        let empty_part = if is_blank(stdout@) && is_blank(stderr@) {
            "<empty output>\n\n"@
        } else {
            Seq::empty()
        };
        assert(out@ =~= out_part + err_part + empty_part + "exitCode: "@ + int_text(
            exit_code as int,
        ));
    }
    out
}

/// Where a chat run stands.
#[derive(Debug, Clone, Copy, PartialEq, Eq, Structural)]
pub enum ChatRunStage {
    /// Waiting for the planner's reply.
    Planning,
    /// Waiting for a read-only command to run.
    Reading,
    /// Waiting for the summary of a command's output.
    Summarizing,
    /// The answer was streamed.
    Finished,
}

/// What a chat run needs from its caller next.
#[derive(Debug, Clone)]
pub enum ChatRunRequest {
    /// Run `command` on the session's executor and report the outcome.
    ReadCommand { session_id: String, command: String },
    /// Ask the summariser about the command's output and report its answer.
    Summarize { command: String, output: String, exit_code: i32 },
    /// Nothing: the run is over.
    Done,
}

/// One chat turn in progress.
#[derive(Debug, Clone)]
pub struct ChatRun {
    pub run_id: String,
    pub conversation_id: String,
    pub session_id: Option<String>,
    pub question: String,
    pub planner_reply: String,
    pub command: String,
    pub pending_action: Option<OpsAgentPendingAction>,
    pub stage: ChatRunStage,
}

/// The answer when the planner chose no tool and gave no reply.
pub open spec fn none_fallback() -> Seq<char> {
    "收到，我来帮你处理这个运维问题。"@
}

/// The answer when a read-only tool came without a command.
pub open spec fn read_without_command() -> Seq<char> {
    "我没有拿到可执行的 read_shell 命令，请补充需求后重试。"@
}

/// The answer when a read-only tool was chosen without a session.
pub open spec fn read_without_session() -> Seq<char> {
    "当前没有可用 SSH 会话，无法执行 read_shell 工具。"@
}

/// The answer when a command ran but could not be summarised.
pub open spec fn read_done() -> Seq<char> {
    "命令已执行，结果已返回。"@
}

/// The start of the answer when a read-only command failed.
pub open spec fn read_failed_prefix() -> Seq<char> {
    "read_shell 执行失败："@
}

/// The answer when a mutating tool came without a command.
pub open spec fn write_without_command() -> Seq<char> {
    "我没有拿到可执行的 write_shell 命令，请补充需求后重试。"@
}

/// The answer when a mutating command awaits confirmation.
pub open spec fn write_pending() -> Seq<char> {
    "我生成了一个 write_shell 操作，已进入待确认队列。请在前端确认或拒绝后执行。"@
}

/// The reason recorded when the planner gave none.
pub open spec fn default_reason() -> Seq<char> {
    "requested by agent"@
}

/// `events` stream `answer`: one `Delta` per piece of `STREAM_CHUNK_CHARS` characters,
/// then one `Completed` carrying the whole answer and `action`.
pub open spec fn streams_answer(
    events: Seq<OpsAgentStreamEvent>,
    answer: Seq<char>,
    action: Option<OpsAgentPendingAction>,
) -> bool {
    let pieces = chunks_of(answer, STREAM_CHUNK_CHARS as nat);
    &&& events.len() == pieces.len() + 1
    &&& forall|i: int|
        0 <= i < pieces.len() ==> (#[trigger] events[i]).stage == OpsAgentStreamStage::Delta
            && opt_view(events[i].chunk) == Some(pieces[i])
    &&& events.last().stage == OpsAgentStreamStage::Completed
    &&& opt_view(events.last().full_answer) == Some(answer)
    &&& events.last().pending_action == action
}

/// The events of `run` all name its run and conversation.
pub open spec fn events_of_run(events: Seq<OpsAgentStreamEvent>, run: ChatRun) -> bool {
    forall|i: int|
        0 <= i < events.len() ==> (#[trigger] events[i]).run_id == run.run_id
            && events[i].conversation_id == run.conversation_id
}

proof fn lemma_nonblank(s: Seq<char>)
    requires
        s.len() > 0,
        !crate::text::is_space(s[0]),
        !crate::text::is_space(s.last()),
    ensures
        !is_blank(s),
{
    assert(crate::text::trim_start(s) == s);
    assert(trim_end(s) == s);
}

proof fn lemma_fallbacks_nonblank()
    ensures
        !is_blank(none_fallback()),
        !is_blank(read_without_command()),
        !is_blank(read_without_session()),
        !is_blank(read_done()),
        !is_blank(write_without_command()),
        !is_blank(write_pending()),
{
    reveal_strlit("收到，我来帮你处理这个运维问题。");
    reveal_strlit("我没有拿到可执行的 read_shell 命令，请补充需求后重试。");
    reveal_strlit("当前没有可用 SSH 会话，无法执行 read_shell 工具。");
    reveal_strlit("命令已执行，结果已返回。");
    reveal_strlit("我没有拿到可执行的 write_shell 命令，请补充需求后重试。");
    reveal_strlit("我生成了一个 write_shell 操作，已进入待确认队列。请在前端确认或拒绝后执行。");
    lemma_nonblank(none_fallback());
    lemma_nonblank(read_without_command());
    lemma_nonblank(read_without_session());
    lemma_nonblank(read_done());
    lemma_nonblank(write_without_command());
    lemma_nonblank(write_pending());
}

proof fn lemma_reply_or_nonblank(reply: Seq<char>, fallback: Seq<char>)
    requires
        !is_blank(fallback),
    ensures
        !is_blank(reply_or(reply, fallback)),
{
}

/// Accepts a chat turn: the question must not be blank; the conversation is resolved
/// (or created) and bound to the session, and the question is appended as a user message.
pub fn start_chat_stream(store: &mut OpsAgentStore, input: OpsAgentChatInput) -> (r: AppResult<
    (OpsAgentChatAccepted, ChatRun),
>)
    ensures
        is_blank(input.question@) ==> (r matches Err(e) && e is Validation),
        r is Err ==> final(store).conversations() == old(store).conversations()
            && final(store).active_id() == old(store).active_id(),
        !is_blank(input.question@) && input.conversation_id is None ==> r is Ok,
        !is_blank(input.question@) && input.conversation_id is Some ==> (r is Ok <==> old(store).has_conversation(input.conversation_id->0@)),
        !is_blank(input.question@) && input.conversation_id is Some && !old(store).has_conversation(
            input.conversation_id->0@,
        ) ==> (r matches Err(e) && e is NotFound),
        r matches Ok((accepted, run)) ==> {
            &&& run.conversation_id == accepted.conversation_id
            &&& run.run_id == accepted.run_id
            &&& run.stage == ChatRunStage::Planning
            &&& run.question@ == trim(input.question@)
            &&& run.session_id == input.session_id
            &&& run.pending_action is None
            &&& final(store).has_conversation(run.conversation_id@)
            &&& final(store).conversation(run.conversation_id@).messages@.last().role
                == OpsAgentRole::User
            &&& final(store).conversation(run.conversation_id@).messages@.last().content@ == trim(
                input.question@,
            )
            &&& final(store).active_id() == Some(run.conversation_id@)
            &&& input.conversation_id is Some ==> run.conversation_id@ == input.conversation_id->0@
                && final(store).conversation(run.conversation_id@).messages@ == old(store).conversation(run.conversation_id@).messages@.push(
                final(store).conversation(run.conversation_id@).messages@.last(),
            )
            &&& input.conversation_id is None ==> !old(store).has_conversation(run.conversation_id@)
                && final(store).conversation(run.conversation_id@).messages@.len() == 1
        },
        final(store).actions() == old(store).actions(),
{
    if is_blank_str(input.question.as_str()) {
        return Err(AppError::Validation(copy_str("question cannot be empty")));
    }
    let session_ref: Option<&str> = match &input.session_id {
        Some(s) => Some(s.as_str()),
        None => None,
    };
    let conversation_ref: Option<&str> = match &input.conversation_id {
        Some(c) => Some(c.as_str()),
        None => None,
    };
    let conversation = match store.ensure_conversation(conversation_ref, session_ref) {
        Ok(c) => c,
        Err(e) => {
            return Err(e);
        },
    };
    proof {
        let convs = store.conversations();
        let key = crate::agent_store::conversation_key();
        if input.conversation_id is Some {
            let cid = input.conversation_id->0@;
            crate::keyed::lemma_has_first_key(old(store).conversations(), key, cid);
            let i = old(store).conversation_index(cid);
            assert(key(convs[i]) == conversation.id@);
        } else {
            let i = convs.len() - 1;
            assert(key(convs[i]) == conversation.id@);
        }
        assert(store.has_conversation(conversation.id@));
        crate::keyed::lemma_has_first_key(convs, key, conversation.id@);
    }
    let ghost mid = *store;
    let message = store.append_message(
        conversation.id.as_str(),
        OpsAgentRole::User,
        input.question.as_str(),
        None,
    );
    if let Err(e) = message {
        return Err(e);
    }
    proof {
        let id = conversation.id@;
        let key = crate::agent_store::conversation_key();
        if input.conversation_id is None {
            let n = old(store).conversations().len() as int;
            assert(mid.conversations()[n] == mid.conversations().last());
            assert forall|j: int| 0 <= j < n implies key(#[trigger] mid.conversations()[j]) != id by {
                assert(mid.conversations()[j] == mid.conversations().drop_last()[j]);
                assert(old(store).conversations()[j].id@ != id);
            }
            crate::keyed::lemma_first_key_index(mid.conversations(), key, id, n);
            if old(store).has_conversation(id) {
                let j = choose|j: int|
                    0 <= j < old(store).conversations().len() && key(
                        #[trigger] old(store).conversations()[j],
                    ) == id;
                assert(old(store).conversations()[j].id@ != id);
            }
        }
    }
    let run_id = new_id();
    let accepted = OpsAgentChatAccepted {
        run_id: run_id.clone(),
        conversation_id: conversation.id.clone(),
        started_at: now_rfc3339(),
    };
    let run = ChatRun {
        run_id,
        conversation_id: conversation.id,
        session_id: input.session_id,
        question: trim_str(input.question.as_str()),
        planner_reply: String::new(),
        command: String::new(),
        pending_action: None,
        stage: ChatRunStage::Planning,
    };
    Ok((accepted, run))
}

fn dup_action(o: &Option<OpsAgentPendingAction>) -> (r: Option<OpsAgentPendingAction>)
    ensures
        r == *o,
{
    match o {
        Some(a) => Some(a.duplicate()),
        None => None,
    }
}

/// The event that opens a run.
pub fn started_event(run: &ChatRun) -> (r: OpsAgentStreamEvent)
    ensures
        r.stage == OpsAgentStreamStage::Started,
        r.run_id == run.run_id,
        r.conversation_id == run.conversation_id,
{
    OpsAgentStreamEvent::new(run.run_id.clone(), run.conversation_id.clone(), OpsAgentStreamStage::Started)
}

/// The single event that replaces the rest of a failed run.
pub fn error_event(run: &ChatRun, message: String) -> (r: OpsAgentStreamEvent)
    ensures
        r.stage == OpsAgentStreamStage::Error,
        r.error == Some(message),
        r.run_id == run.run_id,
        r.conversation_id == run.conversation_id,
{
    let mut event = OpsAgentStreamEvent::new(
        run.run_id.clone(),
        run.conversation_id.clone(),
        OpsAgentStreamStage::Error,
    );
    event.error = Some(message);
    event
}

/// Appends the answer to the conversation and streams it: pieces of
/// `STREAM_CHUNK_CHARS` characters, then the completion with any pending action.
fn finish_answer(run: &mut ChatRun, store: &mut OpsAgentStore, answer: String) -> (r: AppResult<
    Vec<OpsAgentStreamEvent>,
>)
    ensures
        r is Ok <==> !is_blank(answer@) && old(store).has_conversation(old(run).conversation_id@),
        r matches Ok(ev) ==> streams_answer(ev@, answer@, old(run).pending_action) && events_of_run(
            ev@,
            *old(run),
        ),
        r is Ok ==> answered(
            *old(store),
            *final(store),
            old(run).conversation_id@,
            OpsAgentRole::Assistant,
            answer@,
            None,
        ),
        r is Err ==> final(store).conversations() == old(store).conversations()
            && final(store).active_id() == old(store).active_id(),
        final(store).actions() == old(store).actions(),
        final(run).stage == ChatRunStage::Finished,
        final(run).run_id == old(run).run_id,
        final(run).conversation_id == old(run).conversation_id,
        final(run).session_id == old(run).session_id,
        final(run).pending_action == old(run).pending_action,
        final(run).command == old(run).command,
        final(run).planner_reply == old(run).planner_reply,
{
    run.stage = ChatRunStage::Finished;
    match store.append_message(run.conversation_id.as_str(), OpsAgentRole::Assistant, answer.as_str(), None) {
        Ok(_) => {},
        Err(e) => {
            return Err(e);
        },
    }
    let pieces = split_stream_chunks(answer.as_str(), STREAM_CHUNK_CHARS);
    let ghost piece_views = views(pieces@);
    let mut events: Vec<OpsAgentStreamEvent> = Vec::new();
    let mut i: usize = 0;
    while i < pieces.len()
        invariant
            i <= pieces@.len(),
            piece_views == views(pieces@),
            events@.len() == i,
            forall|j: int|
                0 <= j < i ==> (#[trigger] events@[j]).stage == OpsAgentStreamStage::Delta
                    && opt_view(events@[j].chunk) == Some(piece_views[j]) && events@[j].run_id
                    == run.run_id && events@[j].conversation_id == run.conversation_id,
        decreases pieces@.len() - i,
    {
        let mut delta = OpsAgentStreamEvent::new(
            run.run_id.clone(),
            run.conversation_id.clone(),
            OpsAgentStreamStage::Delta,
        );
        delta.chunk = Some(pieces[i].clone());
        events.push(delta);
        i = i + 1;
    }
    let mut completed = OpsAgentStreamEvent::new(
        run.run_id.clone(),
        run.conversation_id.clone(),
        OpsAgentStreamStage::Completed,
    );
    completed.full_answer = Some(answer);
    completed.pending_action = dup_action(&run.pending_action);
    events.push(completed);
    Ok(events)
}

/// The answer given without running anything, when the plan leads to none.
pub open spec fn direct_answer(plan: PlannedAgentReply, session_id: Option<String>) -> Option<
    Seq<char>,
> {
    match plan.tool.kind {
        OpsAgentToolKind::NoTool => Some(reply_or(plan.reply@, none_fallback())),
        OpsAgentToolKind::ReadShell => if plan.tool.command is None {
            Some(reply_or(plan.reply@, read_without_command()))
        } else if session_id is None {
            Some(reply_or(plan.reply@, read_without_session()))
        } else {
            None
        },
        OpsAgentToolKind::WriteShell => if plan.tool.command is None {
            Some(reply_or(plan.reply@, write_without_command()))
        } else {
            None
        },
    }
}

/// Acts on the planner's decision.
///
/// With no usable tool the answer is streamed at once (see `direct_answer`). A read-only
/// command with a session is handed back to be run, with no event yet. A mutating
/// command becomes a `Pending` action, announced by one `RequiresApproval` event and
/// followed by the awaiting-confirmation answer; nothing is run.
pub fn on_plan(run: &mut ChatRun, store: &mut OpsAgentStore, plan: PlannedAgentReply) -> (r:
    AppResult<(Vec<OpsAgentStreamEvent>, ChatRunRequest)>)
    requires
        old(run).stage == ChatRunStage::Planning,
        old(run).pending_action is None,
    ensures
        final(run).planner_reply == plan.reply,
        plan.tool.kind != OpsAgentToolKind::WriteShell ==> final(run).pending_action == old(run).pending_action,
        final(run).run_id == old(run).run_id,
        final(run).conversation_id == old(run).conversation_id,
        final(run).session_id == old(run).session_id,
        direct_answer(plan, old(run).session_id) is Some ==> {
            &&& (r is Ok <==> old(store).has_conversation(old(run).conversation_id@))
            &&& final(store).actions() == old(store).actions()
            &&& r matches Ok((ev, req)) ==> req is Done && streams_answer(
                ev@,
                direct_answer(plan, old(run).session_id)->0,
                None,
            ) && events_of_run(ev@, *old(run))
            &&& r is Ok ==> answered(
                *old(store),
                *final(store),
                old(run).conversation_id@,
                OpsAgentRole::Assistant,
                direct_answer(plan, old(run).session_id)->0,
                None,
            )
        },
        plan.tool.kind == OpsAgentToolKind::ReadShell && plan.tool.command is Some
            && old(run).session_id is Some ==> {
            &&& r matches Ok((ev, req)) && ev@.len() == 0 && req == (ChatRunRequest::ReadCommand {
                session_id: old(run).session_id->0,
                command: plan.tool.command->0,
            })
            &&& final(run).stage == ChatRunStage::Reading
            &&& final(run).command == plan.tool.command->0
            &&& final(store).actions() == old(store).actions()
            &&& final(store).conversations() == old(store).conversations()
            &&& final(store).active_id() == old(store).active_id()
        },
        plan.tool.kind == OpsAgentToolKind::WriteShell && plan.tool.command is Some ==> {
            &&& (r is Ok <==> old(store).has_conversation(old(run).conversation_id@) && !is_blank(
                plan.tool.command->0@,
            ))
            &&& r matches Ok((ev, req)) ==> {
                let a = final(store).actions().last();
                &&& req is Done
                &&& final(store).actions() == old(store).actions().push(a)
                &&& a.status == OpsAgentActionStatus::Pending
                &&& a.command@ == trim(plan.tool.command->0@)
                &&& a.conversation_id@ == old(run).conversation_id@
                &&& opt_view(a.session_id) == opt_view(old(run).session_id)
                &&& ev@.len() >= 1
                &&& ev@[0].stage == OpsAgentStreamStage::RequiresApproval
                &&& ev@[0].pending_action == Some(a)
                &&& streams_answer(ev@.skip(1), reply_or(plan.reply@, write_pending()), Some(a))
                &&& events_of_run(ev@, *old(run))
                &&& answered(
                    *old(store),
                    *final(store),
                    old(run).conversation_id@,
                    OpsAgentRole::Assistant,
                    reply_or(plan.reply@, write_pending()),
                    None,
                )
            }
        },
{
    proof {
        lemma_fallbacks_nonblank();
        lemma_reply_or_nonblank(plan.reply@, none_fallback());
        lemma_reply_or_nonblank(plan.reply@, read_without_command());
        lemma_reply_or_nonblank(plan.reply@, read_without_session());
        lemma_reply_or_nonblank(plan.reply@, write_without_command());
        lemma_reply_or_nonblank(plan.reply@, write_pending());
    }
    run.planner_reply = plan.reply.clone();
    match plan.tool.kind {
        OpsAgentToolKind::NoTool => {
            let answer = normalized_reply(plan.reply, "收到，我来帮你处理这个运维问题。");
            match finish_answer(run, store, answer) {
                Ok(ev) => Ok((ev, ChatRunRequest::Done)),
                Err(e) => Err(e),
            }
        },
        OpsAgentToolKind::ReadShell => {
            match (plan.tool.command, &run.session_id) {
                (None, _) => {
                    let answer = normalized_reply(
                        plan.reply,
                        "我没有拿到可执行的 read_shell 命令，请补充需求后重试。",
                    );
                    match finish_answer(run, store, answer) {
                        Ok(ev) => Ok((ev, ChatRunRequest::Done)),
                        Err(e) => Err(e),
                    }
                },
                (Some(_), None) => {
                    let answer = normalized_reply(
                        plan.reply,
                        "当前没有可用 SSH 会话，无法执行 read_shell 工具。",
                    );
                    match finish_answer(run, store, answer) {
                        Ok(ev) => Ok((ev, ChatRunRequest::Done)),
                        Err(e) => Err(e),
                    }
                },
                (Some(command), Some(session_id)) => {
                    let session_id = session_id.clone();
                    run.command = command.clone();
                    run.stage = ChatRunStage::Reading;
                    Ok((Vec::new(), ChatRunRequest::ReadCommand { session_id, command }))
                },
            }
        },
        OpsAgentToolKind::WriteShell => {
            match plan.tool.command {
                None => {
                    let answer = normalized_reply(
                        plan.reply,
                        "我没有拿到可执行的 write_shell 命令，请补充需求后重试。",
                    );
                    match finish_answer(run, store, answer) {
                        Ok(ev) => Ok((ev, ChatRunRequest::Done)),
                        Err(e) => Err(e),
                    }
                },
                Some(command) => {
                    let reason = match &plan.tool.reason {
                        Some(r) => r.clone(),
                        None => copy_str("requested by agent"),
                    };
                    let session_ref: Option<&str> = match &run.session_id {
                        Some(s) => Some(s.as_str()),
                        None => None,
                    };
                    let action = match store.create_pending_action(
                        run.conversation_id.as_str(),
                        session_ref,
                        command.as_str(),
                        reason.as_str(),
                    ) {
                        Ok(a) => a,
                        Err(e) => {
                            return Err(e);
                        },
                    };
                    run.command = command;
                    run.pending_action = Some(action.duplicate());
                    let mut approve = OpsAgentStreamEvent::new(
                        run.run_id.clone(),
                        run.conversation_id.clone(),
                        OpsAgentStreamStage::RequiresApproval,
                    );
                    approve.pending_action = Some(action);
                    let answer = normalized_reply(
                        plan.reply,
                        "我生成了一个 write_shell 操作，已进入待确认队列。请在前端确认或拒绝后执行。",
                    );
                    match finish_answer(run, store, answer) {
                        Ok(rest) => {
                            let ghost old_rest = rest@;
                            let mut rest = rest;
                            let mut ev: Vec<OpsAgentStreamEvent> = Vec::new();
                            ev.push(approve);
                            ev.append(&mut rest);
                            assert(ev@.skip(1) =~= old_rest);
                            assert forall|j: int| 0 <= j < ev@.len() implies (#[trigger] ev@[j]).run_id == old(run).run_id
                                && ev@[j].conversation_id == old(run).conversation_id by {
                                if j > 0 {
                                    assert(ev@[j] == old_rest[j - 1]);
                                }
                            }
                            Ok((ev, ChatRunRequest::Done))
                        },
                        Err(e) => Err(e),
                    }
                },
            }
        },
    }
}

/// The note kept in the conversation after a read-only command ran.
pub open spec fn read_note(command: Seq<char>, exit_code: i32, report: Seq<char>) -> Seq<char> {
    "read_shell executed.\nCommand: "@ + command + "\nExit: "@ + int_text(exit_code as int) + "\n"@
        + report
}

/// Takes the outcome of the read-only command.
///
/// When it ran, its report is kept in the conversation as a tool message, one `ToolRead`
/// event names the command, and the report goes to the summariser. When it failed, the
/// failure is the answer (the planner's reply takes precedence when it has one).
pub fn on_read_result(
    run: &mut ChatRun,
    store: &mut OpsAgentStore,
    result: AppResult<CommandExecutionResult>,
) -> (r: AppResult<(Vec<OpsAgentStreamEvent>, ChatRunRequest)>)
    requires
        old(run).stage == ChatRunStage::Reading,
    ensures
        final(run).run_id == old(run).run_id,
        final(run).conversation_id == old(run).conversation_id,
        final(run).pending_action == old(run).pending_action,
        final(run).command == old(run).command,
        final(run).planner_reply == old(run).planner_reply,
        final(store).actions() == old(store).actions(),
        result is Ok ==> ({
            let exec = result->Ok_0;
            let ev = r->Ok_0.0;
            &&& r is Ok
            &&& ev@.len() == 1
            &&& ev@[0].stage == OpsAgentStreamStage::ToolRead
            &&& opt_view(ev@[0].chunk) == Some("read_shell: "@ + old(run).command@)
            &&& events_of_run(ev@, *old(run))
            &&& (r->Ok_0.1 matches ChatRunRequest::Summarize { command, output, exit_code }
                && command == old(run).command && output@ == execution_report(
                exec.stdout@,
                exec.stderr@,
                exec.exit_code,
            ) && exit_code == exec.exit_code)
            &&& final(run).stage == ChatRunStage::Summarizing
            &&& old(store).has_conversation(old(run).conversation_id@) ==> answered(
                *old(store),
                *final(store),
                old(run).conversation_id@,
                OpsAgentRole::Tool,
                read_note(
                    old(run).command@,
                    exec.exit_code,
                    execution_report(exec.stdout@, exec.stderr@, exec.exit_code),
                ),
                Some(OpsAgentToolKind::ReadShell),
            )
            &&& !old(store).has_conversation(old(run).conversation_id@) ==> final(store).conversations() == old(store).conversations()
        }),
        result matches Err(e) ==> {
            let answer = reply_or(old(run).planner_reply@, read_failed_prefix() + e.text());
            &&& (r is Ok <==> old(store).has_conversation(old(run).conversation_id@)
                && !is_blank(answer))
            &&& r matches Ok((ev, req)) ==> req is Done && streams_answer(
                ev@,
                answer,
                old(run).pending_action,
            ) && events_of_run(ev@, *old(run))
            &&& r is Ok ==> answered(
                *old(store),
                *final(store),
                old(run).conversation_id@,
                OpsAgentRole::Assistant,
                answer,
                None,
            )
        },
{
    match result {
        Ok(execution) => {
            let output = format_execution_output(
                execution.stdout.as_str(),
                execution.stderr.as_str(),
                execution.exit_code,
            );
            let mut note = copy_str("read_shell executed.\nCommand: ");
            note.append(run.command.as_str());
            note.append("\nExit: ");
            let code = i32_text(execution.exit_code);
            note.append(code.as_str());
            note.append("\n");
            note.append(output.as_str());
            proof {
                reveal_strlit("read_shell executed.\nCommand: ");
                crate::text::lemma_starts_nonblank(note@);
            }
            let _ = store.append_message(
                run.conversation_id.as_str(),
                OpsAgentRole::Tool,
                note.as_str(),
                Some(OpsAgentToolKind::ReadShell),
            );
            let mut event = OpsAgentStreamEvent::new(
                run.run_id.clone(),
                run.conversation_id.clone(),
                OpsAgentStreamStage::ToolRead,
            );
            let mut label = copy_str("read_shell: ");
            label.append(run.command.as_str());
            event.chunk = Some(label);
            let mut ev: Vec<OpsAgentStreamEvent> = Vec::new();
            ev.push(event);
            run.stage = ChatRunStage::Summarizing;
            Ok(
                (
                    ev,
                    ChatRunRequest::Summarize {
                        command: run.command.clone(),
                        output,
                        exit_code: execution.exit_code,
                    },
                ),
            )
        },
        Err(err) => {
            let mut failure = copy_str("read_shell 执行失败：");
            let detail = err.message();
            failure.append(detail.as_str());
            let answer = normalized_reply(run.planner_reply.clone(), failure.as_str());
            match finish_answer(run, store, answer) {
                Ok(ev) => Ok((ev, ChatRunRequest::Done)),
                Err(e) => Err(e),
            }
        },
    }
}

/// Takes the summariser's answer (`None` when it failed) and streams the final answer:
/// the summary, else the planner's reply, else a fixed note that the command ran.
pub fn on_summary(run: &mut ChatRun, store: &mut OpsAgentStore, summary: Option<String>) -> (r:
    AppResult<(Vec<OpsAgentStreamEvent>, ChatRunRequest)>)
    requires
        old(run).stage == ChatRunStage::Summarizing,
    ensures
        final(store).actions() == old(store).actions(),
        ({
            let answer = match summary {
                Some(text) => text@,
                None => reply_or(old(run).planner_reply@, read_done()),
            };
            &&& (r is Ok <==> old(store).has_conversation(old(run).conversation_id@)
                && !is_blank(answer))
            &&& r matches Ok((ev, req)) ==> req is Done && streams_answer(
                ev@,
                answer,
                old(run).pending_action,
            ) && events_of_run(ev@, *old(run))
            &&& r is Ok ==> answered(
                *old(store),
                *final(store),
                old(run).conversation_id@,
                OpsAgentRole::Assistant,
                answer,
                None,
            )
        }),
{
    let answer = match summary {
        Some(text) => text,
        None => normalized_reply(run.planner_reply.clone(), "命令已执行，结果已返回。"),
    };
    match finish_answer(run, store, answer) {
        Ok(ev) => Ok((ev, ChatRunRequest::Done)),
        Err(e) => Err(e),
    }
}

/// What resolving an action leads to.
#[derive(Debug, Clone)]
pub enum ResolutionStep {
    /// The action reached its final status.
    Resolved(OpsAgentResolveActionResult),
    /// The approved command must run on the session before the action can be closed.
    Execute { session_id: String, command: String },
}

/// The notice kept in the conversation when an action is rejected.
pub open spec fn rejection_notice(command: Seq<char>, reason: Seq<char>) -> Seq<char> {
    "Write-shell action rejected.\nCommand: "@ + command + "\nReason: "@ + reason
}

/// The text recorded when an approved action has no session to run on.
pub open spec fn missing_session_text() -> Seq<char> {
    "missing session id for write_shell"@
}

proof fn lemma_stamp_then_append(
    old: OpsAgentStore,
    mid: OpsAgentStore,
    new: OpsAgentStore,
    cid: Seq<char>,
    m: crate::agent_types::OpsAgentMessage,
)
    requires
        conversation_stamped(old.conversations(), mid.conversations(), cid),
        message_appended(mid, new, cid, m),
        old.has_conversation(cid),
    ensures
        message_appended(old, new, cid, m),
{
    let key = conversation_key();
    crate::keyed::lemma_has_first_key(old.conversations(), key, cid);
    let k = old.conversation_index(cid);
    lemma_update_keeps_first(old.conversations(), cid, k, mid.conversations()[k]);
    assert(new.conversations() =~= old.conversations().update(k, new.conversations()[k]));
}

/// Decides on a pending action. Only a `Pending` action can be resolved; any other is
/// refused with `Validation` and left as it is. A rejection is final at once, as is an
/// approval without a session (it fails); an approval with a session asks for the
/// command to run, and `complete_pending_action` closes the action with its outcome.
pub fn resolve_pending_action(store: &mut OpsAgentStore, input: &OpsAgentResolveActionInput) -> (r:
    AppResult<ResolutionStep>)
    ensures
        !old(store).has_action(input.action_id@) ==> (r matches Err(e) && e is NotFound),
        old(store).has_action(input.action_id@) && old(store).action(input.action_id@).status
            != OpsAgentActionStatus::Pending ==> (r matches Err(e) && e is Validation),
        r is Err ==> final(store).actions() == old(store).actions() && final(store).conversations()
            == old(store).conversations() && final(store).active_id() == old(store).active_id(),
        old(store).has_action(input.action_id@) && old(store).action(input.action_id@).status
            == OpsAgentActionStatus::Pending ==> ({
            let i = old(store).action_index(input.action_id@);
            let before = old(store).action(input.action_id@);
            let cid = before.conversation_id@;
            &&& r is Ok
            &&& !input.approve ==> (r matches Ok(ResolutionStep::Resolved(res))
                && res.note@ == "Action rejected"@
                && final(store).actions() == old(store).actions().update(i, res.action)
                && action_resolved(before, res.action, OpsAgentActionStatus::Rejected, None, None)
                && (old(store).has_conversation(cid) ==> answered(
                    *old(store),
                    *final(store),
                    cid,
                    OpsAgentRole::Assistant,
                    rejection_notice(before.command@, before.reason@),
                    Some(OpsAgentToolKind::WriteShell),
                )))
            &&& input.approve && before.session_id is None ==> (r matches Ok(
                ResolutionStep::Resolved(res),
            ) && res.note@ == "Action failed: missing session id"@
                && final(store).actions() == old(store).actions().update(i, res.action)
                && action_resolved(
                before,
                res.action,
                OpsAgentActionStatus::Failed,
                Some(missing_session_text()),
                None,
            ) && conversation_stamped(old(store).conversations(), final(store).conversations(), cid)
                && final(store).active_id() == old(store).active_id())
            &&& input.approve && before.session_id is Some ==> (r matches Ok(
                ResolutionStep::Execute { session_id, command },
            ) && session_id == before.session_id->0 && command == before.command
                && final(store).actions() == old(store).actions()
                && final(store).conversations() == old(store).conversations()
                && final(store).active_id() == old(store).active_id())
        }),
{
    let action = match store.get_pending_action(input.action_id.as_str()) {
        Ok(a) => a,
        Err(e) => {
            return Err(e);
        },
    };
    if action.status != OpsAgentActionStatus::Pending {
        return Err(AppError::Validation(copy_str("action is not pending and cannot be resolved again")));
    }
    if !input.approve {
        let updated = match store.mark_action_rejected(input.action_id.as_str()) {
            Ok(a) => a,
            Err(e) => {
                return Err(e);
            },
        };
        let ghost mid = *store;
        let mut notice = copy_str("Write-shell action rejected.\nCommand: ");
        notice.append(updated.command.as_str());
        notice.append("\nReason: ");
        notice.append(updated.reason.as_str());
        proof {
            reveal_strlit("Write-shell action rejected.\nCommand: ");
            crate::text::lemma_starts_nonblank(notice@);
            crate::agent_store::lemma_touched_keeps_lookup(
                old(store).conversations(),
                mid.conversations(),
                updated.conversation_id@,
            );
        }
        let appended = store.append_message(
            updated.conversation_id.as_str(),
            OpsAgentRole::Assistant,
            notice.as_str(),
            Some(OpsAgentToolKind::WriteShell),
        );
        proof {
            if old(store).has_conversation(updated.conversation_id@) {
                lemma_stamp_then_append(*old(store), mid, *store, updated.conversation_id@, appended->Ok_0);
            }
        }
        return Ok(
            ResolutionStep::Resolved(
                OpsAgentResolveActionResult { action: updated, note: copy_str("Action rejected") },
            ),
        );
    }
    match action.session_id {
        None => {
            let updated = match store.mark_action_failed(
                input.action_id.as_str(),
                copy_str("missing session id for write_shell"),
            ) {
                Ok(a) => a,
                Err(e) => {
                    return Err(e);
                },
            };
            Ok(
                ResolutionStep::Resolved(
                    OpsAgentResolveActionResult {
                        action: updated,
                        note: copy_str("Action failed: missing session id"),
                    },
                ),
            )
        },
        Some(session_id) => Ok(ResolutionStep::Execute { session_id, command: action.command }),
    }
}

/// The tool message kept after an approved command ran.
pub open spec fn write_note(command: Seq<char>, exit_code: i32, report: Seq<char>) -> Seq<char> {
    "write_shell executed.\nCommand: "@ + command + "\nExit: "@ + int_text(exit_code as int) + "\n"@
        + report
}

/// Closes an approved action with the outcome of its command: `Executed` with the report
/// and exit code when it ran, `Failed` with the error text when it could not. An action
/// that is no longer pending is refused with `Validation` and left as it is.
pub fn complete_pending_action(
    store: &mut OpsAgentStore,
    action_id: &str,
    outcome: AppResult<CommandExecutionResult>,
) -> (r: AppResult<OpsAgentResolveActionResult>)
    ensures
        !old(store).has_action(action_id@) ==> (r matches Err(e) && e is NotFound),
        old(store).has_action(action_id@) && old(store).action(action_id@).status
            != OpsAgentActionStatus::Pending ==> (r matches Err(e) && e is Validation),
        r is Err ==> final(store).actions() == old(store).actions() && final(store).conversations()
            == old(store).conversations() && final(store).active_id() == old(store).active_id(),
        old(store).has_action(action_id@) && old(store).action(action_id@).status
            == OpsAgentActionStatus::Pending ==> ({
            let i = old(store).action_index(action_id@);
            let before = old(store).action(action_id@);
            let cid = before.conversation_id@;
            &&& r is Ok
            &&& r matches Ok(res) ==> final(store).actions() == old(store).actions().update(
                i,
                res.action,
            )
            &&& outcome matches Ok(exec) ==> (r matches Ok(res)
                && res.note@ == "Action approved and executed"@ && action_resolved(
                before,
                res.action,
                OpsAgentActionStatus::Executed,
                Some(execution_report(exec.stdout@, exec.stderr@, exec.exit_code)),
                Some(exec.exit_code),
            ) && (old(store).has_conversation(cid) ==> answered(
                *old(store),
                *final(store),
                cid,
                OpsAgentRole::Tool,
                write_note(
                    before.command@,
                    exec.exit_code,
                    execution_report(exec.stdout@, exec.stderr@, exec.exit_code),
                ),
                Some(OpsAgentToolKind::WriteShell),
            )))
            &&& outcome matches Err(e) ==> (r matches Ok(res)
                && res.note@ == "Action approved but execution failed"@ && action_resolved(
                before,
                res.action,
                OpsAgentActionStatus::Failed,
                Some(e.text()),
                None,
            ) && conversation_stamped(old(store).conversations(), final(store).conversations(), cid)
                && final(store).active_id() == old(store).active_id())
        }),
{
    let action = match store.get_pending_action(action_id) {
        Ok(a) => a,
        Err(e) => {
            return Err(e);
        },
    };
    if action.status != OpsAgentActionStatus::Pending {
        return Err(AppError::Validation(copy_str("action is not pending and cannot be resolved again")));
    }
    match outcome {
        Ok(execution) => {
            let output = format_execution_output(
                execution.stdout.as_str(),
                execution.stderr.as_str(),
                execution.exit_code,
            );
            let updated = match store.mark_action_executed(
                action_id,
                output.clone(),
                execution.exit_code,
            ) {
                Ok(a) => a,
                Err(e) => {
                    return Err(e);
                },
            };
            let mut note = copy_str("write_shell executed.\nCommand: ");
            note.append(updated.command.as_str());
            note.append("\nExit: ");
            let code = i32_text(execution.exit_code);
            note.append(code.as_str());
            note.append("\n");
            note.append(output.as_str());
            let ghost mid = *store;
            proof {
                reveal_strlit("write_shell executed.\nCommand: ");
                crate::text::lemma_starts_nonblank(note@);
                crate::agent_store::lemma_touched_keeps_lookup(
                    old(store).conversations(),
                    mid.conversations(),
                    updated.conversation_id@,
                );
            }
            let appended = store.append_message(
                updated.conversation_id.as_str(),
                OpsAgentRole::Tool,
                note.as_str(),
                Some(OpsAgentToolKind::WriteShell),
            );
            proof {
                if old(store).has_conversation(updated.conversation_id@) {
                    lemma_stamp_then_append(*old(store), mid, *store, updated.conversation_id@, appended->Ok_0);
                }
            }
            Ok(
                OpsAgentResolveActionResult {
                    action: updated,
                    note: copy_str("Action approved and executed"),
                },
            )
        },
        Err(err) => {
            let updated = match store.mark_action_failed(action_id, err.message()) {
                Ok(a) => a,
                Err(e) => {
                    return Err(e);
                },
            };
            Ok(
                OpsAgentResolveActionResult {
                    action: updated,
                    note: copy_str("Action approved but execution failed"),
                },
            )
        },
    }
}

/// Resolution is one-way: once an action is resolved to a final status it is no longer
/// pending, so a further `resolve_pending_action` or `complete_pending_action` on it is
/// refused with `Validation` and leaves it, and its outcome, as they are.
pub proof fn law_resolution_is_final(
    before: OpsAgentStore,
    after: OpsAgentStore,
    action_id: Seq<char>,
    resolved: OpsAgentPendingAction,
    status: OpsAgentActionStatus,
    output: Option<Seq<char>>,
    exit_code: Option<i32>,
)
    requires
        before.has_action(action_id),
        after.actions() == before.actions().update(before.action_index(action_id), resolved),
        action_resolved(before.action(action_id), resolved, status, output, exit_code),
        status != OpsAgentActionStatus::Pending,
    ensures
        after.has_action(action_id),
        after.action(action_id) == resolved,
        after.action(action_id).status != OpsAgentActionStatus::Pending,
{
    let key = crate::agent_store::action_key();
    crate::keyed::lemma_has_first_key(before.actions(), key, action_id);
    let i = before.action_index(action_id);
    assert(crate::keyed::is_first_key(after.actions(), key, action_id, i));
    crate::keyed::lemma_first_key_index(after.actions(), key, action_id, i);
}

/// How many events of `events` have stage `stage`.
pub open spec fn count_stage(events: Seq<OpsAgentStreamEvent>, stage: OpsAgentStreamStage) -> nat
    decreases events.len(),
{
    if events.len() == 0 {
        0
    } else {
        count_stage(events.drop_last(), stage) + if events.last().stage == stage {
            1nat
        } else {
            0nat
        }
    }
}

proof fn lemma_count_absent(events: Seq<OpsAgentStreamEvent>, stage: OpsAgentStreamStage)
    requires
        forall|i: int| 0 <= i < events.len() ==> (#[trigger] events[i]).stage != stage,
    ensures
        count_stage(events, stage) == 0,
    decreases events.len(),
{
    if events.len() > 0 {
        lemma_count_absent(events.drop_last(), stage);
    }
}

proof fn lemma_count_prepend(
    first: OpsAgentStreamEvent,
    rest: Seq<OpsAgentStreamEvent>,
    stage: OpsAgentStreamStage,
)
    ensures
        count_stage(seq![first] + rest, stage) == count_stage(rest, stage) + if first.stage
            == stage {
            1nat
        } else {
            0nat
        },
    decreases rest.len(),
{
    if rest.len() > 0 {
        lemma_count_prepend(first, rest.drop_last(), stage);
        assert((seq![first] + rest).drop_last() =~= seq![first] + rest.drop_last());
        assert((seq![first] + rest).last() == rest.last());
    } else {
        assert(seq![first] + rest =~= seq![first]);
        assert(seq![first].drop_last() =~= Seq::<OpsAgentStreamEvent>::empty());
        assert(count_stage(rest, stage) == 0);
        assert(count_stage(seq![first].drop_last(), stage) == 0);
    }
}

/// A mutating plan only proposes: its events hold exactly one `RequiresApproval`, which
/// carries the `Pending` action, then the streamed answer; no `ToolRead` (nothing ran),
/// and the run asks its caller to run nothing.
pub proof fn law_write_plan_awaits_approval(
    events: Seq<OpsAgentStreamEvent>,
    request: ChatRunRequest,
    action: OpsAgentPendingAction,
    answer: Seq<char>,
)
    requires
        events.len() >= 1,
        events[0].stage == OpsAgentStreamStage::RequiresApproval,
        events[0].pending_action == Some(action),
        action.status == OpsAgentActionStatus::Pending,
        streams_answer(events.skip(1), answer, Some(action)),
        request is Done,
    ensures
        count_stage(events, OpsAgentStreamStage::RequiresApproval) == 1,
        count_stage(events, OpsAgentStreamStage::ToolRead) == 0,
        events[0].pending_action matches Some(a) && a.status == OpsAgentActionStatus::Pending,
        !(request is ReadCommand),
{
    let rest = events.skip(1);
    let pieces = chunks_of(answer, STREAM_CHUNK_CHARS as nat);
    assert forall|i: int| 0 <= i < rest.len() implies (#[trigger] rest[i]).stage
        != OpsAgentStreamStage::RequiresApproval && rest[i].stage
        != OpsAgentStreamStage::ToolRead by {
        if i < pieces.len() {
            assert(rest[i].stage == OpsAgentStreamStage::Delta);
        } else {
            assert(rest[i] == rest.last());
        }
    }
    lemma_count_absent(rest, OpsAgentStreamStage::RequiresApproval);
    lemma_count_absent(rest, OpsAgentStreamStage::ToolRead);
    lemma_count_prepend(events[0], rest, OpsAgentStreamStage::RequiresApproval);
    lemma_count_prepend(events[0], rest, OpsAgentStreamStage::ToolRead);
    assert(seq![events[0]] + rest =~= events);
}

/// A run's stream in the promised order: `Started`, at most one `ToolRead` or
/// `RequiresApproval`, any number of `Delta`, then one `Completed`.
pub open spec fn stream_in_order(events: Seq<OpsAgentStreamEvent>) -> bool {
    &&& events.len() >= 2
    &&& events[0].stage == OpsAgentStreamStage::Started
    &&& events.last().stage == OpsAgentStreamStage::Completed
    &&& forall|i: int|
        2 <= i < events.len() - 1 ==> (#[trigger] events[i]).stage == OpsAgentStreamStage::Delta
    &&& (events.len() > 2 ==> (events[1].stage == OpsAgentStreamStage::Delta || events[1].stage
        == OpsAgentStreamStage::ToolRead || events[1].stage
        == OpsAgentStreamStage::RequiresApproval))
}

/// A run's events, joined in the order its steps emit them (the opening event, the one
/// `ToolRead` or `RequiresApproval` announcement if there is one, then the streamed
/// answer), are in the promised order.
pub proof fn law_stream_order(
    started: OpsAgentStreamEvent,
    announcement: Seq<OpsAgentStreamEvent>,
    answer_events: Seq<OpsAgentStreamEvent>,
    answer: Seq<char>,
    action: Option<OpsAgentPendingAction>,
)
    requires
        started.stage == OpsAgentStreamStage::Started,
        announcement.len() <= 1,
        announcement.len() == 1 ==> (announcement[0].stage == OpsAgentStreamStage::ToolRead
            || announcement[0].stage == OpsAgentStreamStage::RequiresApproval),
        streams_answer(answer_events, answer, action),
    ensures
        stream_in_order(seq![started] + announcement + answer_events),
{
    let all = seq![started] + announcement + answer_events;
    let pieces = chunks_of(answer, STREAM_CHUNK_CHARS as nat);
    let off = 1 + announcement.len();
    assert forall|i: int| off <= i < all.len() implies #[trigger] all[i] == answer_events[i - off] by {}
    assert(all.last() == answer_events.last());
    assert forall|i: int| 2 <= i < all.len() - 1 implies (#[trigger] all[i]).stage
        == OpsAgentStreamStage::Delta by {
        assert(all[i] == answer_events[i - off]);
        assert(answer_events[i - off].stage == OpsAgentStreamStage::Delta);
    }
    if all.len() > 2 && announcement.len() == 0 {
        assert(all[1] == answer_events[0]);
    }
}

} // verus!
