//! Terminal and command operations on the session registry.
use vstd::prelude::*;
use crate::clock::now_rfc3339;
use crate::error::{AppError, AppResult};
use crate::remote_path::{
    cd_target, parse_cd_target, sanitize_cwd, sanitized_cwd, shell_quote, shell_quoted,
    format_stdout_stderr, stdout_stderr,
};
use crate::session::{
    close_signalled, directory_changed, last_chars, output_replaced, trim_to_last_chars, PtyCommand,
    SessionRegistry, ShellSession, MAX_SESSION_LAST_OUTPUT_CHARS, MIN_PTY_COLS, MIN_PTY_ROWS,
};
use crate::text::{append_chars, chars_of, copy_str, is_blank, is_blank_str, trim, trim_str};
use vstd::string::StringExecFns;

verus! {

/// What one command run returned, with its timing.
#[derive(Debug, Clone)]
pub struct CommandExecutionResult {
    pub session_id: String,
    pub command: String,
    pub stdout: String,
    pub stderr: String,
    pub exit_code: i32,
    pub current_dir: String,
    pub started_at: String,
    pub finished_at: String,
    pub duration_ms: u128,
}

/// A command checked against its session and turned into the text the remote shell runs.
#[derive(Debug, Clone)]
pub struct PreparedCommand {
    pub session_id: String,
    pub command: String,
    pub config_id: String,
    pub previous_dir: String,
    pub change_directory: bool,
    pub remote_command: String,
}

/// The remote text of a `cd`: enter the tracked directory, then the target, then print it.
pub open spec fn cd_remote_command(dir: Seq<char>, target: Seq<char>) -> Seq<char> {
    "cd "@ + shell_quoted(dir) + " && cd "@ + target + " && pwd"@
}

/// The remote text of any other command: enter the tracked directory, then run it.
pub open spec fn plain_remote_command(dir: Seq<char>, command: Seq<char>) -> Seq<char> {
    "cd "@ + shell_quoted(dir) + " && "@ + command
}

/// What the remote shell is asked to run for `command` from directory `dir`.
pub open spec fn remote_command_for(dir: Seq<char>, command: Seq<char>) -> Seq<char> {
    match cd_target(command) {
        Some(Some(target)) => cd_remote_command(dir, target),
        Some(None) => cd_remote_command(dir, "~"@),
        None => plain_remote_command(dir, command),
    }
}

/// How a `cd` that printed `stdout` and exited with `exit_code` changes a session:
/// on success it moves to the printed directory, otherwise it stays as it was.
pub open spec fn cd_step(
    before: ShellSession,
    after: ShellSession,
    stdout: Seq<char>,
    exit_code: i32,
) -> bool {
    if exit_code == 0 {
        directory_changed(before, after, sanitized_cwd(trim(stdout)), trim(stdout))
    } else {
        after == before
    }
}

/// Closes a session: its worker is told to stop and its record is dropped.
/// Closing an absent session succeeds too.
pub fn close_shell_session(reg: &mut SessionRegistry, session_id: &str) -> (r: AppResult<()>)
    requires
        old(reg).wf(),
    ensures
        final(reg).wf(),
        r is Ok,
        final(reg).session_map() == old(reg).session_map().remove(session_id@),
        final(reg).inbox_map() == close_signalled(
            old(reg).inbox_map(),
            old(reg).accepting(),
            session_id@,
        ),
        final(reg).accepting() == old(reg).accepting().remove(session_id@),
{
    match reg.remove_session(session_id) {
        Ok(()) => Ok(()),
        Err(AppError::NotFound(_)) => Ok(()),
        Err(err) => Err(err),
    }
}

/// Queues keyboard input for a session's terminal. Empty input is accepted and dropped.
pub fn pty_write_input(reg: &mut SessionRegistry, session_id: &str, data: &str) -> (r: AppResult<
    (),
>)
    requires
        old(reg).wf(),
    ensures
        final(reg).wf(),
        r is Ok <==> old(reg).accepting().contains(session_id@),
        r matches Err(e) ==> e is NotFound,
        final(reg).session_map() == old(reg).session_map(),
        r is Ok && data@.len() > 0 ==> ({
            let q = final(reg).inbox_map()[session_id@];
            &&& final(reg).inbox_map() == old(reg).inbox_map().insert(
                session_id@,
                old(reg).inbox_map()[session_id@].push(q.last()),
            )
            &&& q.last() matches PtyCommand::Input(text) && text@ == data@
        }),
        r is Err || data@.len() == 0 ==> final(reg).inbox_map() == old(reg).inbox_map(),
        final(reg).accepting() == old(reg).accepting(),
{
    if !reg.has_pty_channel(session_id) {
        return Err(AppError::NotFound(copy_str(session_id)));
    }
    if data.is_empty() {
        return Ok(());
    }
    let text = copy_str(data);
    let ghost cmd = PtyCommand::Input(text);
    let r = reg.send_pty_command(session_id, PtyCommand::Input(text));
    assert(reg.inbox_map()[session_id@].last() == cmd);
    r
}

/// The width a resize asks for: at least `MIN_PTY_COLS`.
pub open spec fn safe_cols(cols: u16) -> u16 {
    if cols < MIN_PTY_COLS {
        MIN_PTY_COLS
    } else {
        cols
    }
}

/// The height a resize asks for: at least `MIN_PTY_ROWS`.
pub open spec fn safe_rows(rows: u16) -> u16 {
    if rows < MIN_PTY_ROWS {
        MIN_PTY_ROWS
    } else {
        rows
    }
}

/// Queues a resize of a session's terminal, widened to the smallest usable size.
pub fn pty_resize(reg: &mut SessionRegistry, session_id: &str, cols: u16, rows: u16) -> (r:
    AppResult<()>)
    requires
        old(reg).wf(),
    ensures
        final(reg).wf(),
        r is Ok <==> old(reg).accepting().contains(session_id@),
        r matches Err(e) ==> e is NotFound,
        final(reg).session_map() == old(reg).session_map(),
        r is Ok ==> final(reg).inbox_map() == old(reg).inbox_map().insert(
            session_id@,
            old(reg).inbox_map()[session_id@].push(
                PtyCommand::Resize { cols: safe_cols(cols), rows: safe_rows(rows) },
            ),
        ),
        r is Err ==> final(reg).inbox_map() == old(reg).inbox_map(),
        final(reg).accepting() == old(reg).accepting(),
{
    let safe_c = if cols < MIN_PTY_COLS {
        MIN_PTY_COLS
    } else {
        cols
    };
    let safe_r = if rows < MIN_PTY_ROWS {
        MIN_PTY_ROWS
    } else {
        rows
    };
    reg.send_pty_command(session_id, PtyCommand::Resize { cols: safe_c, rows: safe_r })
}

/// Appends a chunk of terminal output to a session's buffer, keeping only the
/// latest `MAX_SESSION_LAST_OUTPUT_CHARS` characters. An absent session is left alone.
pub fn append_session_output(reg: &mut SessionRegistry, session_id: &str, chunk: &str)
    requires
        old(reg).wf(),
    ensures
        final(reg).wf(),
        final(reg).inbox_map() == old(reg).inbox_map(),
        final(reg).accepting() == old(reg).accepting(),
        !old(reg).session_map().contains_key(session_id@) ==> final(reg).session_map() == old(reg).session_map(),
        old(reg).session_map().contains_key(session_id@) ==> ({
            let before = old(reg).session_map()[session_id@];
            let after = final(reg).session_map()[session_id@];
            &&& final(reg).session_map() == old(reg).session_map().insert(session_id@, after)
            &&& output_replaced(
                before,
                after,
                last_chars(before.last_output@ + chunk@, MAX_SESSION_LAST_OUTPUT_CHARS as nat),
            )
        }),
{
    match reg.get_session(session_id) {
        Ok(s) => {
            let mut buffer = copy_str(s.last_output.as_str());
            let tail = chars_of(chunk);
            append_chars(&mut buffer, tail.as_slice());
            trim_to_last_chars(&mut buffer, MAX_SESSION_LAST_OUTPUT_CHARS);
            let _ = reg.set_session_output(session_id, buffer);
        },
        Err(_) => {},
    }
}

/// Checks a command against its session and builds the remote text to run.
/// Fails with `NotFound` for an unknown session and `Validation` for a blank command.
pub fn prepare_command(reg: &SessionRegistry, session_id: &str, command: &str) -> (r: AppResult<
    PreparedCommand,
>)
    requires
        reg.wf(),
    ensures
        !reg.session_map().contains_key(session_id@) ==> (r matches Err(e) && e is NotFound),
        reg.session_map().contains_key(session_id@) && is_blank(command@) ==> (r matches Err(e)
            && e is Validation),
        reg.session_map().contains_key(session_id@) && !is_blank(command@) ==> r is Ok,
        r matches Ok(p) ==> ({
            let s = reg.session_map()[session_id@];
            &&& p.session_id@ == session_id@
            &&& p.command@ == command@
            &&& p.config_id == s.config_id
            &&& p.previous_dir == s.current_dir
            &&& p.change_directory == (cd_target(command@) is Some)
            &&& p.remote_command@ == remote_command_for(s.current_dir@, command@)
        }),
{
    let session = match reg.get_session(session_id) {
        Ok(s) => s,
        Err(e) => {
            return Err(e);
        },
    };
    if is_blank_str(command) {
        return Err(AppError::Validation(copy_str("command cannot be empty")));
    }
    let quoted = shell_quote(session.current_dir.as_str());
    let mut remote = copy_str("cd ");
    remote.append(quoted.as_str());
    let target = parse_cd_target(command);
    let change_directory = target.is_some();
    match target {
        Some(t) => {
            remote.append(" && cd ");
            match t {
                Some(dir) => {
                    remote.append(dir.as_str());
                },
                None => {
                    remote.append("~");
                },
            }
            remote.append(" && pwd");
        },
        None => {
            remote.append(" && ");
            remote.append(command);
        },
    }
    Ok(
        PreparedCommand {
            session_id: copy_str(session_id),
            command: copy_str(command),
            config_id: session.config_id,
            previous_dir: session.current_dir,
            change_directory,
            remote_command: remote,
        },
    )
}

/// Records what the remote shell returned for a prepared command.
///
/// A `cd` that exited with 0 moves the session to the printed directory (made
/// absolute) and keeps that path as its output; a failed `cd` changes nothing and
/// the result reports the directory read back from the registry. Any other command
/// keeps standard output and error as the session's output and reports the directory
/// it ran in. A session that vanished meanwhile is reported as `NotFound`.
pub fn complete_command(
    reg: &mut SessionRegistry,
    prepared: &PreparedCommand,
    stdout: String,
    stderr: String,
    exit_code: i32,
    started_at: String,
    duration_ms: u128,
) -> (r: AppResult<CommandExecutionResult>)
    requires
        old(reg).wf(),
    ensures
        final(reg).wf(),
        final(reg).inbox_map() == old(reg).inbox_map(),
        final(reg).accepting() == old(reg).accepting(),
        r is Ok <==> old(reg).session_map().contains_key(prepared.session_id@),
        r matches Err(e) ==> e is NotFound && final(reg).session_map() == old(reg).session_map(),
        r matches Ok(res) ==> ({
            let id = prepared.session_id@;
            let before = old(reg).session_map()[id];
            let after = final(reg).session_map()[id];
            &&& final(reg).session_map() == old(reg).session_map().insert(id, after)
            &&& prepared.change_directory ==> cd_step(before, after, stdout@, exit_code)
            &&& prepared.change_directory ==> res.current_dir == after.current_dir
            &&& !prepared.change_directory ==> output_replaced(
                before,
                after,
                stdout_stderr(stdout@, stderr@),
            )
            &&& !prepared.change_directory ==> res.current_dir == prepared.previous_dir
            &&& res.session_id@ == id
            &&& res.command == prepared.command
            &&& res.stdout == stdout
            &&& res.stderr == stderr
            &&& res.exit_code == exit_code
            &&& res.started_at == started_at
            &&& res.duration_ms == duration_ms
        }),
{
    let session_id = prepared.session_id.as_str();
    let current_dir = if prepared.change_directory {
        if exit_code == 0 {
            let printed = trim_str(stdout.as_str());
            let dir = sanitize_cwd(printed.as_str());
            match reg.set_session_directory(session_id, dir, printed) {
                Ok(s) => s.current_dir,
                Err(e) => {
                    return Err(e);
                },
            }
        } else {
            match reg.get_session(session_id) {
                Ok(s) => s.current_dir,
                Err(e) => {
                    return Err(e);
                },
            }
        }
    } else {
        let output = format_stdout_stderr(stdout.as_str(), stderr.as_str());
        match reg.set_session_output(session_id, output) {
            Ok(_) => prepared.previous_dir.clone(),
            Err(e) => {
                return Err(e);
            },
        }
    };
    proof {
        if prepared.change_directory && exit_code != 0 {
            assert(old(reg).session_map().insert(prepared.session_id@, old(reg).session_map()[prepared.session_id@]) =~= old(reg).session_map());
        }
    }
    Ok(
        CommandExecutionResult {
            session_id: prepared.session_id.clone(),
            command: prepared.command.clone(),
            stdout,
            stderr,
            exit_code,
            current_dir,
            started_at,
            finished_at: now_rfc3339(),
            duration_ms,
        },
    )
}

/// All chunks joined in order.
pub open spec fn joined(chunks: Seq<Seq<char>>) -> Seq<char>
    decreases chunks.len(),
{
    if chunks.len() == 0 {
        Seq::empty()
    } else {
        joined(chunks.drop_last()) + chunks.last()
    }
}

/// The buffer after appending each chunk in turn to `start`, trimming to `cap` each time.
pub open spec fn buffered(start: Seq<char>, chunks: Seq<Seq<char>>, cap: nat) -> Seq<char>
    decreases chunks.len(),
{
    if chunks.len() == 0 {
        start
    } else {
        last_chars(buffered(start, chunks.drop_last(), cap) + chunks.last(), cap)
    }
}

/// The directory a session is in after a run of `cd` commands from `start`, where
/// `outputs[i]` is what the i-th printed and `codes[i]` its exit code.
pub open spec fn dir_after_cds(start: Seq<char>, outputs: Seq<Seq<char>>, codes: Seq<i32>) -> Seq<
    char,
>
    decreases outputs.len(),
{
    if outputs.len() == 0 || codes.len() != outputs.len() {
        start
    } else if codes.last() == 0 {
        sanitized_cwd(trim(outputs.last()))
    } else {
        dir_after_cds(start, outputs.drop_last(), codes.drop_last())
    }
}

/// Trimming after one more chunk is the same as trimming everything appended so far:
/// the buffer holds the latest `cap` characters, exactly `cap` of them once that many came.
pub proof fn law_trim_after_append(prev: Seq<char>, chunk: Seq<char>, cap: nat)
    ensures
        last_chars(last_chars(prev, cap) + chunk, cap) == last_chars(prev + chunk, cap),
        (prev + chunk).len() >= cap ==> last_chars(prev + chunk, cap).len() == cap,
{
    if prev.len() > cap {
        let kept = last_chars(prev, cap);
        assert(last_chars(kept + chunk, cap) =~= last_chars(prev + chunk, cap));
    }
}

/// However output arrives in chunks, once at least one chunk has been appended the
/// session buffer holds the latest `cap` characters of everything appended after the
/// starting buffer (exactly `cap` of them once that many came), measured in characters.
pub proof fn law_output_buffer_keeps_latest(start: Seq<char>, chunks: Seq<Seq<char>>, cap: nat)
    requires
        chunks.len() > 0 || start.len() <= cap,
    ensures
        buffered(start, chunks, cap) == last_chars(start + joined(chunks), cap),
        (start + joined(chunks)).len() >= cap ==> buffered(start, chunks, cap).len() == cap,
    decreases chunks.len(),
{
    if chunks.len() == 0 {
        assert(start + joined(chunks) =~= start);
    } else {
        let rest = chunks.drop_last();
        if rest.len() == 0 {
            assert(joined(rest) =~= Seq::<char>::empty());
            assert(buffered(start, rest, cap) == start);
            assert(joined(chunks) == joined(rest) + chunks.last());
            assert(joined(chunks) =~= chunks.last());
            assert(buffered(start, chunks, cap) == last_chars(start + chunks.last(), cap));
            assert(start + joined(chunks) =~= start + chunks.last());
        } else {
            law_output_buffer_keeps_latest(start, rest, cap);
            law_trim_after_append(start + joined(rest), chunks.last(), cap);
            assert(start + joined(rest) + chunks.last() =~= start + joined(chunks));
        }
    }
}

proof fn lemma_appends_follow_buffered(states: Seq<ShellSession>, chunks: Seq<Seq<char>>, k: int)
    requires
        states.len() == chunks.len() + 1,
        0 <= k <= chunks.len(),
        forall|i: int|
            0 <= i < chunks.len() ==> output_replaced(
                #[trigger] states[i],
                states[i + 1],
                last_chars(states[i].last_output@ + chunks[i], MAX_SESSION_LAST_OUTPUT_CHARS as nat),
            ),
    ensures
        states[k].last_output@ == buffered(
            states[0].last_output@,
            chunks.take(k),
            MAX_SESSION_LAST_OUTPUT_CHARS as nat,
        ),
        states[k].current_dir == states[0].current_dir,
    decreases k,
{
    if k == 0 {
        assert(chunks.take(0) =~= Seq::<Seq<char>>::empty());
    } else {
        lemma_appends_follow_buffered(states, chunks, k - 1);
        assert(chunks.take(k).drop_last() =~= chunks.take(k - 1));
        assert(output_replaced(
            states[k - 1],
            states[k],
            last_chars(states[k - 1].last_output@ + chunks[k - 1], MAX_SESSION_LAST_OUTPUT_CHARS as nat),
        ));
    }
}

/// A session fed chunks `chunks` in turn by `append_session_output` (each step as that
/// function states it) ends up holding the latest `MAX_SESSION_LAST_OUTPUT_CHARS`
/// characters of its starting buffer followed by every chunk, and keeps its directory.
pub proof fn law_session_output_after_appends(states: Seq<ShellSession>, chunks: Seq<Seq<char>>)
    requires
        chunks.len() > 0,
        states.len() == chunks.len() + 1,
        forall|i: int|
            0 <= i < chunks.len() ==> output_replaced(
                #[trigger] states[i],
                states[i + 1],
                last_chars(states[i].last_output@ + chunks[i], MAX_SESSION_LAST_OUTPUT_CHARS as nat),
            ),
    ensures
        states.last().last_output@ == last_chars(
            states[0].last_output@ + joined(chunks),
            MAX_SESSION_LAST_OUTPUT_CHARS as nat,
        ),
        (states[0].last_output@ + joined(chunks)).len() >= MAX_SESSION_LAST_OUTPUT_CHARS
            ==> states.last().last_output@.len() == MAX_SESSION_LAST_OUTPUT_CHARS,
        states.last().current_dir == states[0].current_dir,
{
    lemma_appends_follow_buffered(states, chunks, chunks.len() as int);
    assert(chunks.take(chunks.len() as int) =~= chunks);
    law_output_buffer_keeps_latest(states[0].last_output@, chunks, MAX_SESSION_LAST_OUTPUT_CHARS as nat);
}

/// A closed session is gone: its worker was handed `Close` after anything still queued
/// and its inbox takes no more requests, so writing and resizing report `NotFound`; its
/// record is dropped, so preparing a command reports `NotFound`; and closing it again
/// changes nothing (and, like every close, succeeds).
pub proof fn law_closed_session_is_gone(
    before: SessionRegistry,
    after: SessionRegistry,
    session_id: Seq<char>,
)
    requires
        after.session_map() == before.session_map().remove(session_id),
        after.inbox_map() == close_signalled(before.inbox_map(), before.accepting(), session_id),
        after.accepting() == before.accepting().remove(session_id),
    ensures
        !after.accepting().contains(session_id),
        !after.session_map().contains_key(session_id),
        before.accepting().contains(session_id) ==> after.inbox_map()[session_id]
            == before.inbox_map()[session_id].push(PtyCommand::Close),
        after.session_map().remove(session_id) == after.session_map(),
        close_signalled(after.inbox_map(), after.accepting(), session_id) == after.inbox_map(),
        after.accepting().remove(session_id) == after.accepting(),
{
    assert(after.session_map().remove(session_id) =~= after.session_map());
    assert(after.accepting().remove(session_id) =~= after.accepting());
}

/// A run of `cd` commands leaves the session in the directory that the last successful
/// one printed (made absolute), or where it started if none succeeded; a failed `cd`
/// leaves the directory as it was.
pub proof fn law_cd_chain_tracks_remote_pwd(
    states: Seq<ShellSession>,
    outputs: Seq<Seq<char>>,
    codes: Seq<i32>,
)
    requires
        states.len() == outputs.len() + 1,
        codes.len() == outputs.len(),
        forall|i: int|
            0 <= i < outputs.len() ==> cd_step(
                #[trigger] states[i],
                states[i + 1],
                outputs[i],
                codes[i],
            ),
    ensures
        states.last().current_dir@ == dir_after_cds(states[0].current_dir@, outputs, codes),
    decreases outputs.len(),
{
    if outputs.len() > 0 {
        let n = outputs.len() - 1;
        let prefix = states.drop_last();
        assert forall|i: int| 0 <= i < n implies cd_step(
            #[trigger] prefix[i],
            prefix[i + 1],
            outputs.drop_last()[i],
            codes.drop_last()[i],
        ) by {
            assert(cd_step(states[i], states[i + 1], outputs[i], codes[i]));
        }
        law_cd_chain_tracks_remote_pwd(prefix, outputs.drop_last(), codes.drop_last());
        assert(cd_step(states[n], states[n + 1], outputs[n], codes[n]));
    }
}

} // verus!
