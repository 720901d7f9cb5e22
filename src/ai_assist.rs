//! The one-shot assistant: building its request and finding a suggested command in
//! its answer.
use vstd::prelude::*;
use crate::error::{AppError, AppResult};
use crate::lines::{char_views, lines_of, text_lines};
use crate::text::{
    append_chars, chars_of, copy_str, is_blank, is_blank_str, push_char, string_of, trim,
    trim_chars, trim_start, trim_start_chars, trim_str,
};
use vstd::string::StringExecFns;

verus! {

/// Who wrote an assistant message.
#[derive(Debug, Clone, Copy, PartialEq, Eq, Structural)]
pub enum AiRole {
    System,
    User,
    Assistant,
}

/// One message of an assistant request.
#[derive(Debug, Clone)]
pub struct AiChatMessage {
    pub role: AiRole,
    pub content: String,
}

/// A question for the assistant, optionally with a session's recent output.
#[derive(Debug, Clone)]
pub struct AiAskInput {
    pub question: String,
    pub session_id: Option<String>,
    pub include_last_output: bool,
}

/// The assistant's answer and the command it suggests, if any.
#[derive(Debug, Clone)]
pub struct AiAnswer {
    pub answer: String,
    pub suggested_command: Option<String>,
}

/// The wire name of a role.
pub open spec fn role_wire_name(role: AiRole) -> Seq<char> {
    match role {
        AiRole::System => "system"@,
        AiRole::User => "user"@,
        AiRole::Assistant => "assistant"@,
    }
}

/// The wire name of a role.
pub fn ai_role_to_wire(role: &AiRole) -> (r: &'static str)
    ensures
        r@ == role_wire_name(*role),
{
    match role {
        AiRole::System => "system",
        AiRole::User => "user",
        AiRole::Assistant => "assistant",
    }
}

/// A line that opens or closes a fenced block: it starts with three backticks once trimmed.
pub open spec fn is_fence(line: Seq<char>) -> bool {
    trim(line).len() >= 3 && trim(line).take(3) == "```"@
}

/// The lines of the first fenced block (up to its closing fence, or to the end).
pub open spec fn block_lines(ls: Seq<Seq<char>>, in_block: bool) -> Seq<Seq<char>>
    decreases ls.len(),
{
    if ls.len() == 0 {
        Seq::empty()
    } else if is_fence(ls[0]) {
        if in_block {
            Seq::empty()
        } else {
            block_lines(ls.drop_first(), true)
        }
    } else if in_block {
        seq![ls[0]] + block_lines(ls.drop_first(), true)
    } else {
        block_lines(ls.drop_first(), false)
    }
}

/// Lines joined with newlines.
pub open spec fn join_lines(ls: Seq<Seq<char>>) -> Seq<char>
    decreases ls.len(),
{
    if ls.len() == 0 {
        Seq::empty()
    } else if ls.len() == 1 {
        ls[0]
    } else {
        join_lines(ls.drop_last()) + "\n"@ + ls.last()
    }
}

/// The command of the first shell-prompt line (`$ command`, indentation allowed) that
/// has one.
pub open spec fn prompt_command(ls: Seq<Seq<char>>) -> Option<Seq<char>>
    decreases ls.len(),
{
    if ls.len() == 0 {
        None
    } else {
        let t = trim_start(ls[0]);
        if t.len() >= 2 && t[0] == '$' && t[1] == ' ' && trim(t.skip(2)).len() > 0 {
            Some(trim(t.skip(2)))
        } else {
            prompt_command(ls.drop_first())
        }
    }
}

/// The command an answer suggests: the content of its first fenced block when that is
/// not blank, else the first shell-prompt line's command.
pub open spec fn suggested_command(text: Seq<char>) -> Option<Seq<char>> {
    let ls = text_lines(text);
    let b = block_lines(ls, false);
    if b.len() > 0 && trim(join_lines(b)).len() > 0 {
        Some(trim(join_lines(b)))
    } else {
        prompt_command(ls)
    }
}

fn fence(line: &[char]) -> (r: bool)
    ensures
        r == is_fence(line@),
{
    let t = trim_chars(line);
    if t.len() >= 3 && t[0] == '`' && t[1] == '`' && t[2] == '`' {
        proof {
            reveal_strlit("```");
            assert(t@.take(3) =~= "```"@);
        }
        true
    } else {
        proof {
            reveal_strlit("```");
            if t@.len() >= 3 && t@.take(3) == "```"@ {
                assert(t@[0] == t@.take(3)[0]);
                assert(t@[1] == t@.take(3)[1]);
                assert(t@[2] == t@.take(3)[2]);
            }
        }
        false
    }
}

fn block_command(
    ls: &Vec<Vec<char>>,
    block: &Vec<usize>,
    all: Ghost<Seq<Seq<char>>>,
    b: Ghost<Seq<Seq<char>>>,
) -> (r: Option<String>)
    requires
        all@ == char_views(ls@),
        forall|j: int| 0 <= j < block@.len() ==> block@[j] < ls@.len(),
        b@ == block@.map_values(|k: usize| all@[k as int]),
    ensures
        match r {
            Some(c) => b@.len() > 0 && trim(join_lines(b@)).len() > 0 && c@ == trim(join_lines(b@)),
            None => !(b@.len() > 0 && trim(join_lines(b@)).len() > 0),
        },
{
    if block.len() == 0 {
        return None;
    }
    let mut joined = string_of(ls[block[0]].as_slice());
    let mut k: usize = 1;
    assert(b@.take(1) =~= seq![b@[0]]);
    while k < block.len()
        invariant
            1 <= k <= block@.len(),
            all@ == char_views(ls@),
            forall|j: int| 0 <= j < block@.len() ==> block@[j] < ls@.len(),
            b@ == block@.map_values(|k: usize| all@[k as int]),
            joined@ == join_lines(b@.take(k as int)),
        decreases block@.len() - k,
    {
        push_char(&mut joined, '\n');
        append_chars(&mut joined, ls[block[k]].as_slice());
        let ghost next = b@.take(k + 1);
        assert(next.drop_last() =~= b@.take(k as int));
        proof {
            reveal_strlit("\n");
        }
        assert(joined@ =~= join_lines(next));
        k = k + 1;
    }
    assert(b@.take(k as int) =~= b@);
    let candidate = trim_str(joined.as_str());
    if candidate.as_str().is_empty() {
        None
    } else {
        Some(candidate)
    }
}

/// Finds the command an answer suggests (see `suggested_command`).
pub fn extract_suggested_command(text: &str) -> (r: Option<String>)
    ensures
        match r {
            Some(c) => suggested_command(text@) == Some(c@),
            None => suggested_command(text@) is None,
        },
{
    let chars = chars_of(text);
    let ls = lines_of(chars.as_slice());
    let ghost all = char_views(ls@);
    let mut block: Vec<usize> = Vec::new();
    let mut in_block = false;
    let mut closed = false;
    let mut i: usize = 0;
    assert(all.skip(0) =~= all);
    while i < ls.len() && !closed
        invariant
            i <= ls@.len(),
            closed ==> i < ls@.len() && block_lines(all.skip(i as int), in_block)
                =~= Seq::<Seq<char>>::empty(),
            all == char_views(ls@),
            forall|j: int| 0 <= j < block@.len() ==> block@[j] < ls@.len(),
            block@.map_values(|k: usize| all[k as int]) + block_lines(all.skip(i as int), in_block)
                == block_lines(all, false),
        decreases ls@.len() - i + (if closed {
            0int
        } else {
            1int
        }),
    {
        let ghost rest = all.skip(i as int);
        assert(rest[0] == ls@[i as int]@);
        assert(rest.drop_first() =~= all.skip(i + 1));
        if fence(ls[i].as_slice()) {
            if !in_block {
                in_block = true;
                i = i + 1;
                continue;
            }
            assert(block_lines(rest, true) =~= Seq::<Seq<char>>::empty());
            closed = true;
        } else if in_block {
            let ghost before = block@;
            block.push(i);
            assert(block@.map_values(|k: usize| all[k as int]) =~= before.map_values(
                |k: usize| all[k as int],
            ).push(all[i as int]));
            assert(before.map_values(|k: usize| all[k as int]).push(all[i as int])
                + block_lines(all.skip(i + 1), true) =~= before.map_values(
                |k: usize| all[k as int],
            ) + (seq![all[i as int]] + block_lines(all.skip(i + 1), true)));
            i = i + 1;
        } else {
            i = i + 1;
        }
    }
    proof {
        if !closed {
            assert(all.skip(i as int) =~= Seq::<Seq<char>>::empty());
        }
        assert(block@.map_values(|k: usize| all[k as int]) =~= block_lines(all, false));
    }
    let ghost b = block_lines(all, false);
    match block_command(&ls, &block, Ghost(all), Ghost(b)) {
        Some(c) => {
            return Some(c);
        },
        None => {},
    }
    let mut p: usize = 0;
    assert(all.skip(0) =~= all);
    while p < ls.len()
        invariant
            p <= ls@.len(),
            all == char_views(ls@),
            all == text_lines(text@),
            b == block_lines(all, false),
            !(b.len() > 0 && trim(join_lines(b)).len() > 0),
            prompt_command(all) == prompt_command(all.skip(p as int)),
        decreases ls@.len() - p,
    {
        let ghost rest = all.skip(p as int);
        assert(rest[0] == ls@[p as int]@);
        assert(rest.drop_first() =~= all.skip(p + 1));
        let t = trim_start_chars(ls[p].as_slice());
        if t.len() >= 2 && t[0] == '$' && t[1] == ' ' {
            let tail = crate::remote_path::slice_range(t.as_slice(), 2, t.len());
            assert(tail@ =~= t@.skip(2));
            let command = trim_chars(tail.as_slice());
            if command.len() > 0 {
                assert(prompt_command(rest) == Some(trim(t@.skip(2))));
                assert(prompt_command(all) == Some(command@));
                return Some(string_of(command.as_slice()));
            }
        }
        p = p + 1;
    }
    assert(all.skip(p as int) =~= Seq::<Seq<char>>::empty());
    None
}

/// The question sent to the assistant: trimmed, followed by the session's recent
/// output when that was asked for and is not blank.
pub open spec fn ask_content(question: Seq<char>, with_output: bool, last_output: Option<Seq<char>>) -> Seq<
    char,
> {
    match last_output {
        Some(out) => if with_output && !is_blank(out) {
            trim(question) + "\n\nTerminal output context:\n"@ + out
        } else {
            trim(question)
        },
        None => trim(question),
    }
}

/// The messages of an assistant request: the configured system prompt, then the
/// question (see `ask_content`). A blank question is refused.
pub fn build_ask_messages(system_prompt: &str, input: &AiAskInput, last_output: Option<String>) -> (r:
    AppResult<Vec<AiChatMessage>>)
    ensures
        r is Err <==> is_blank(input.question@),
        r matches Err(e) ==> e is Validation,
        r matches Ok(m) ==> m@.len() == 2 && m@[0].role == AiRole::System && m@[0].content@
            == system_prompt@ && m@[1].role == AiRole::User && m@[1].content@ == ask_content(
            input.question@,
            input.include_last_output,
            crate::agent_store::opt_view(last_output),
        ),
{
    if is_blank_str(input.question.as_str()) {
        return Err(AppError::Validation(copy_str("question cannot be empty")));
    }
    let mut content = trim_str(input.question.as_str());
    match &last_output {
        Some(out) => {
            if input.include_last_output && !is_blank_str(out.as_str()) {
                content.append("\n\nTerminal output context:\n");
                content.append(out.as_str());
            }
        },
        None => {},
    }
    let mut messages: Vec<AiChatMessage> = Vec::new();
    messages.push(AiChatMessage { role: AiRole::System, content: copy_str(system_prompt) });
    messages.push(AiChatMessage { role: AiRole::User, content });
    Ok(messages)
}

/// The assistant's answer with the command it suggests.
pub fn answer_from_text(text: String) -> (r: AiAnswer)
    ensures
        r.answer == text,
        match r.suggested_command {
            Some(c) => suggested_command(text@) == Some(c@),
            None => suggested_command(text@) is None,
        },
{
    let suggested_command = extract_suggested_command(text.as_str());
    AiAnswer { answer: text, suggested_command }
}

} // verus!
