//! The session registry: live interactive sessions, their command inboxes,
//! output buffering and the working-directory rules of the command executor.
use vstd::prelude::*;
use crate::clock::now_rfc3339;
use crate::error::{AppError, AppResult};
use crate::keyed::{
    has_key, keyed_map, keys_unique, lemma_keyed_absent, lemma_keyed_at, lemma_keyed_push,
    lemma_keyed_remove, lemma_keyed_update,
};
use crate::text::{chars_of, copy_str, str_eq, string_of};

verus! {

/// How many characters of recent output a session keeps.
pub const MAX_SESSION_LAST_OUTPUT_CHARS: usize = 16000;

/// The narrowest terminal a resize may ask for.
pub const MIN_PTY_COLS: u16 = 20;

/// The shortest terminal a resize may ask for.
pub const MIN_PTY_ROWS: u16 = 8;

/// One interactive connection to a remote host.
#[derive(Debug, Clone)]
pub struct ShellSession {
    pub id: String,
    pub config_id: String,
    pub config_name: String,
    pub current_dir: String,
    pub last_output: String,
    pub created_at: String,
    pub updated_at: String,
}

/// A request queued for the worker that owns a session's terminal.
#[derive(Debug, Clone)]
pub enum PtyCommand {
    Input(String),
    Resize { cols: u16, rows: u16 },
    Close,
}

/// The queue of requests for one session's worker.
struct PtyInbox {
    session_id: String,
    queue: Vec<PtyCommand>,
    open: bool,
}

/// The key of a session record.
pub open spec fn session_key() -> spec_fn(ShellSession) -> Seq<char> {
    |s: ShellSession| s.id@
}

spec fn inbox_key() -> spec_fn(PtyInbox) -> Seq<char> {
    |b: PtyInbox| b.session_id@
}

spec fn queues_of(k: Map<Seq<char>, PtyInbox>) -> Map<Seq<char>, Seq<PtyCommand>> {
    Map::new(|id: Seq<char>| k.contains_key(id), |id: Seq<char>| k[id].queue@)
}

spec fn open_of(k: Map<Seq<char>, PtyInbox>) -> Set<Seq<char>> {
    Set::new(|id: Seq<char>| k.contains_key(id) && k[id].open)
}

proof fn lemma_views_insert(k: Map<Seq<char>, PtyInbox>, id: Seq<char>, b: PtyInbox)
    ensures
        queues_of(k.insert(id, b)) == queues_of(k).insert(id, b.queue@),
        open_of(k.insert(id, b)) == (if b.open {
            open_of(k).insert(id)
        } else {
            open_of(k).remove(id)
        }),
{
    assert(queues_of(k.insert(id, b)) =~= queues_of(k).insert(id, b.queue@));
    assert(open_of(k.insert(id, b)) =~= (if b.open {
        open_of(k).insert(id)
    } else {
        open_of(k).remove(id)
    }));
}

proof fn lemma_views_remove(k: Map<Seq<char>, PtyInbox>, id: Seq<char>)
    ensures
        queues_of(k.remove(id)) == queues_of(k).remove(id),
        open_of(k.remove(id)) == open_of(k).remove(id),
{
    assert(queues_of(k.remove(id)) =~= queues_of(k).remove(id));
    assert(open_of(k.remove(id)) =~= open_of(k).remove(id));
}

/// The queue after a close request: `Close` appended to the inbox of `id` when it still
/// accepts requests, nothing changed otherwise.
pub open spec fn close_signalled(
    queues: Map<Seq<char>, Seq<PtyCommand>>,
    accepting: Set<Seq<char>>,
    id: Seq<char>,
) -> Map<Seq<char>, Seq<PtyCommand>> {
    if accepting.contains(id) {
        queues.insert(id, queues[id].push(PtyCommand::Close))
    } else {
        queues
    }
}

/// The last `n` characters of `s` (all of `s` when it is shorter).
pub open spec fn last_chars(s: Seq<char>, n: nat) -> Seq<char> {
    if s.len() <= n {
        s
    } else {
        s.subrange(s.len() - n, s.len() as int)
    }
}

/// `new` is `old` with only its output buffer and its update time changed.
pub open spec fn output_replaced(old: ShellSession, new: ShellSession, output: Seq<char>) -> bool {
    &&& new.id == old.id
    &&& new.config_id == old.config_id
    &&& new.config_name == old.config_name
    &&& new.current_dir == old.current_dir
    &&& new.created_at == old.created_at
    &&& new.last_output@ == output
}

/// `new` is `old` moved to `dir`, with `output` as its buffer.
pub open spec fn directory_changed(
    old: ShellSession,
    new: ShellSession,
    dir: Seq<char>,
    output: Seq<char>,
) -> bool {
    &&& new.id == old.id
    &&& new.config_id == old.config_id
    &&& new.config_name == old.config_name
    &&& new.created_at == old.created_at
    &&& new.current_dir@ == dir
    &&& new.last_output@ == output
}

impl ShellSession {
    /// A field-by-field copy.
    pub fn duplicate(&self) -> (r: ShellSession)
        ensures
            r == *self,
    {
        ShellSession {
            id: self.id.clone(),
            config_id: self.config_id.clone(),
            config_name: self.config_name.clone(),
            current_dir: self.current_dir.clone(),
            last_output: self.last_output.clone(),
            created_at: self.created_at.clone(),
            updated_at: self.updated_at.clone(),
        }
    }
}

/// Keeps only the last `max_chars` characters of `value`, dropping the oldest.
pub fn trim_to_last_chars(value: &mut String, max_chars: usize)
    ensures
        final(value)@ == last_chars(old(value)@, max_chars as nat),
{
    let chars = chars_of(value.as_str());
    let total = chars.len();
    if total <= max_chars {
        return;
    }
    let drop = total - max_chars;
    let mut kept: Vec<char> = Vec::new();
    let mut k: usize = drop;
    while k < total
        invariant
            drop <= k <= total,
            total == chars@.len(),
            kept@ == chars@.subrange(drop as int, k as int),
        decreases total - k,
    {
        kept.push(chars[k]);
        k = k + 1;
        assert(kept@ =~= chars@.subrange(drop as int, k as int));
    }
    *value = string_of(kept.as_slice());
}

/// The registry of live sessions and of the inboxes of their workers.
pub struct SessionRegistry {
    sessions: Vec<ShellSession>,
    inboxes: Vec<PtyInbox>,
}

impl SessionRegistry {
    /// Session ids are distinct, and so are inbox ids.
    pub closed spec fn wf(&self) -> bool {
        &&& keys_unique(self.sessions@, session_key())
        &&& keys_unique(self.inboxes@, inbox_key())
    }

    /// The live sessions, in registration order.
    pub closed spec fn session_list(&self) -> Seq<ShellSession> {
        self.sessions@
    }

    /// Each live session by its id.
    pub closed spec fn session_map(&self) -> Map<Seq<char>, ShellSession> {
        keyed_map(self.sessions@, session_key())
    }

    /// The queued requests of each registered worker, by session id.
    pub closed spec fn inbox_map(&self) -> Map<Seq<char>, Seq<PtyCommand>> {
        queues_of(keyed_map(self.inboxes@, inbox_key()))
    }

    /// The sessions whose inbox still takes requests: registered and not yet told to close.
    pub closed spec fn accepting(&self) -> Set<Seq<char>> {
        open_of(keyed_map(self.inboxes@, inbox_key()))
    }

    /// An empty registry.
    pub fn new() -> (r: SessionRegistry)
        ensures
            r.wf(),
            r.session_map() == Map::<Seq<char>, ShellSession>::empty(),
            r.inbox_map() == Map::<Seq<char>, Seq<PtyCommand>>::empty(),
            r.accepting() == Set::<Seq<char>>::empty(),
    {
        let r = SessionRegistry { sessions: Vec::new(), inboxes: Vec::new() };
        assert(r.session_map() =~= Map::<Seq<char>, ShellSession>::empty());
        assert(r.inbox_map() =~= Map::<Seq<char>, Seq<PtyCommand>>::empty());
        assert(r.accepting() =~= Set::<Seq<char>>::empty());
        r
    }

    fn find_session(&self, session_id: &str) -> (r: Option<usize>)
        requires
            self.wf(),
        ensures
            r matches Some(i) ==> i < self.sessions@.len() && self.sessions@[i as int].id@
                == session_id@,
            r is None ==> forall|i: int|
                0 <= i < self.sessions@.len() ==> (#[trigger] self.sessions@[i]).id@
                    != session_id@,
            r is Some <==> self.session_map().contains_key(session_id@),
    {
        let mut i: usize = 0;
        while i < self.sessions.len()
            invariant
                self.wf(),
                i <= self.sessions@.len(),
                forall|j: int| 0 <= j < i ==> (#[trigger] self.sessions@[j]).id@ != session_id@,
            decreases self.sessions@.len() - i,
        {
            if str_eq(self.sessions[i].id.as_str(), session_id) {
                proof {
                    lemma_keyed_at(self.sessions@, session_key(), i as int);
                }
                return Some(i);
            }
            i = i + 1;
        }
        proof {
            lemma_keyed_absent(self.sessions@, session_key(), session_id@);
        }
        None
    }

    fn find_inbox(&self, session_id: &str) -> (r: Option<usize>)
        requires
            self.wf(),
        ensures
            r matches Some(i) ==> i < self.inboxes@.len() && self.inboxes@[i as int].session_id@
                == session_id@,
            r is None ==> forall|i: int|
                0 <= i < self.inboxes@.len() ==> (#[trigger] self.inboxes@[i]).session_id@
                    != session_id@,
            r is Some <==> self.inbox_map().contains_key(session_id@),
    {
        let mut i: usize = 0;
        while i < self.inboxes.len()
            invariant
                self.wf(),
                i <= self.inboxes@.len(),
                forall|j: int|
                    0 <= j < i ==> (#[trigger] self.inboxes@[j]).session_id@ != session_id@,
            decreases self.inboxes@.len() - i,
        {
            if str_eq(self.inboxes[i].session_id.as_str(), session_id) {
                assert((inbox_key())(self.inboxes@[i as int]) == session_id@);
                return Some(i);
            }
            i = i + 1;
        }
        assert(!has_key(self.inboxes@, inbox_key(), session_id@));
        None
    }

    /// Replaces session record `i` by `s`, which has the same id.
    fn replace_session(&mut self, i: usize, s: ShellSession)
        requires
            old(self).wf(),
            i < old(self).sessions@.len(),
            s.id@ == old(self).sessions@[i as int].id@,
        ensures
            final(self).wf(),
            final(self).session_map() == old(self).session_map().insert(s.id@, s),
            final(self).inbox_map() == old(self).inbox_map(),
            final(self).accepting() == old(self).accepting(),
            final(self).session_list() == old(self).session_list().update(i as int, s),
    {
        proof {
            lemma_keyed_update(self.sessions@, session_key(), i as int, s);
        }
        self.sessions.set(i, s);
    }

    /// All live sessions.
    pub fn list_sessions(&self) -> (r: Vec<ShellSession>)
        ensures
            r@ == self.session_list(),
    {
        let mut out: Vec<ShellSession> = Vec::new();
        let mut i: usize = 0;
        while i < self.sessions.len()
            invariant
                i <= self.sessions@.len(),
                out@ == self.sessions@.take(i as int),
            decreases self.sessions@.len() - i,
        {
            out.push(self.sessions[i].duplicate());
            i = i + 1;
            assert(out@ =~= self.sessions@.take(i as int));
        }
        assert(self.sessions@.take(i as int) =~= self.sessions@);
        out
    }

    /// Stores `session`, replacing the one with the same id.
    pub fn put_session(&mut self, session: ShellSession)
        requires
            old(self).wf(),
        ensures
            final(self).wf(),
            final(self).session_map() == old(self).session_map().insert(session.id@, session),
            final(self).inbox_map() == old(self).inbox_map(),
            final(self).accepting() == old(self).accepting(),
    {
        match self.find_session(session.id.as_str()) {
            Some(i) => {
                self.replace_session(i, session);
            },
            None => {
                proof {
                    lemma_keyed_push(self.sessions@, session_key(), session);
                }
                self.sessions.push(session);
            },
        }
    }

    /// The session with id `session_id`.
    pub fn get_session(&self, session_id: &str) -> (r: AppResult<ShellSession>)
        requires
            self.wf(),
        ensures
            r is Ok <==> self.session_map().contains_key(session_id@),
            r matches Ok(s) ==> s == self.session_map()[session_id@],
            r matches Err(e) ==> e is NotFound,
    {
        match self.find_session(session_id) {
            Some(i) => {
                proof {
                    lemma_keyed_at(self.sessions@, session_key(), i as int);
                }
                Ok(self.sessions[i].duplicate())
            },
            None => Err(AppError::NotFound(copy_str(session_id))),
        }
    }

    /// Removes the session and unregisters its worker, which then stops.
    /// An absent session is reported as `NotFound`, after the worker is unregistered.
    pub fn remove_session(&mut self, session_id: &str) -> (r: AppResult<()>)
        requires
            old(self).wf(),
        ensures
            final(self).wf(),
            final(self).session_map() == old(self).session_map().remove(session_id@),
            final(self).inbox_map() == close_signalled(
                old(self).inbox_map(),
                old(self).accepting(),
                session_id@,
            ),
            final(self).accepting() == old(self).accepting().remove(session_id@),
            r is Ok <==> old(self).session_map().contains_key(session_id@),
            r matches Err(e) ==> e is NotFound,
    {
        self.remove_pty_channel(session_id);
        match self.find_session(session_id) {
            Some(i) => {
                proof {
                    lemma_keyed_remove(self.sessions@, session_key(), i as int);
                }
                self.sessions.remove(i);
                Ok(())
            },
            None => {
                assert(self.session_map().remove(session_id@) =~= self.session_map());
                Err(AppError::NotFound(copy_str(session_id)))
            },
        }
    }

    /// Registers an empty, accepting inbox for the worker of `session_id`, replacing any
    /// earlier one.
    pub fn put_pty_channel(&mut self, session_id: String)
        requires
            old(self).wf(),
        ensures
            final(self).wf(),
            final(self).inbox_map() == old(self).inbox_map().insert(
                session_id@,
                Seq::<PtyCommand>::empty(),
            ),
            final(self).accepting() == old(self).accepting().insert(session_id@),
            final(self).session_map() == old(self).session_map(),
    {
        let fresh = PtyInbox { session_id, queue: Vec::new(), open: true };
        let ghost b = fresh;
        proof {
            assert(fresh.queue@ =~= Seq::<PtyCommand>::empty());
        }
        match self.find_inbox(fresh.session_id.as_str()) {
            Some(i) => {
                proof {
                    lemma_keyed_update(self.inboxes@, inbox_key(), i as int, fresh);
                }
                self.inboxes.set(i, fresh);
            },
            None => {
                proof {
                    assert(!has_key(self.inboxes@, inbox_key(), fresh.session_id@));
                    lemma_keyed_push(self.inboxes@, inbox_key(), fresh);
                }
                self.inboxes.push(fresh);
            },
        }
        proof {
            lemma_views_insert(keyed_map(old(self).inboxes@, inbox_key()), b.session_id@, b);
        }
    }

    /// Replaces inbox `i` by `updated`, which has the same session id.
    fn replace_inbox(&mut self, i: usize, updated: PtyInbox)
        requires
            old(self).wf(),
            i < old(self).inboxes@.len(),
            updated.session_id@ == old(self).inboxes@[i as int].session_id@,
        ensures
            final(self).wf(),
            keyed_map(final(self).inboxes@, inbox_key()) == keyed_map(old(self).inboxes@, inbox_key()).insert(
                updated.session_id@,
                updated,
            ),
            final(self).inbox_map() == old(self).inbox_map().insert(updated.session_id@, updated.queue@),
            final(self).accepting() == (if updated.open {
                old(self).accepting().insert(updated.session_id@)
            } else {
                old(self).accepting().remove(updated.session_id@)
            }),
            final(self).session_map() == old(self).session_map(),
    {
        let ghost b = updated;
        proof {
            lemma_keyed_update(self.inboxes@, inbox_key(), i as int, updated);
        }
        self.inboxes.set(i, updated);
        proof {
            lemma_views_insert(keyed_map(old(self).inboxes@, inbox_key()), b.session_id@, b);
        }
    }

    /// Queues `command` for the worker of `session_id`, if its inbox still accepts requests.
    pub fn send_pty_command(&mut self, session_id: &str, command: PtyCommand) -> (r: AppResult<
        (),
    >)
        requires
            old(self).wf(),
        ensures
            final(self).wf(),
            r is Ok <==> old(self).accepting().contains(session_id@),
            r matches Err(e) ==> e is NotFound,
            r is Ok ==> final(self).inbox_map() == old(self).inbox_map().insert(
                session_id@,
                old(self).inbox_map()[session_id@].push(command),
            ),
            r is Err ==> final(self).inbox_map() == old(self).inbox_map(),
            final(self).accepting() == old(self).accepting(),
            final(self).session_map() == old(self).session_map(),
    {
        match self.find_inbox(session_id) {
            Some(i) => {
                proof {
                    lemma_keyed_at(self.inboxes@, inbox_key(), i as int);
                }
                if !self.inboxes[i].open {
                    return Err(AppError::NotFound(copy_str(session_id)));
                }
                let ghost cmd = command;
                let ghost old_box = self.inboxes@[i as int];
                let mut queue: Vec<PtyCommand> = Vec::new();
                std::mem::swap(&mut queue, &mut self.inboxes[i].queue);
                queue.push(command);
                let id = self.inboxes[i].session_id.clone();
                let updated = PtyInbox { session_id: id, queue, open: true };
                let ghost mid = self.inboxes@;
                proof {
                    assert(self.inboxes@ =~= old(self).inboxes@.update(i as int, self.inboxes@[i as int]));
                    lemma_keyed_update(old(self).inboxes@, inbox_key(), i as int, self.inboxes@[i as int]);
                }
                self.replace_inbox(i, updated);
                proof {
                    assert(updated.queue@ == old_box.queue@.push(cmd));
                    lemma_views_insert(keyed_map(old(self).inboxes@, inbox_key()), session_id@, self.inboxes@[i as int]);
                    assert(keyed_map(self.inboxes@, inbox_key()) =~= keyed_map(old(self).inboxes@, inbox_key()).insert(session_id@, updated));
                    lemma_views_insert(keyed_map(old(self).inboxes@, inbox_key()), session_id@, updated);
                    assert(old(self).accepting().insert(session_id@) =~= old(self).accepting());
                }
                Ok(())
            },
            None => Err(AppError::NotFound(copy_str(session_id))),
        }
    }

    /// Hands the worker of `session_id` its queued requests, oldest first, and empties
    /// its inbox; `None` once the inbox is unregistered.
    pub fn take_pty_commands(&mut self, session_id: &str) -> (r: Option<Vec<PtyCommand>>)
        requires
            old(self).wf(),
        ensures
            final(self).wf(),
            r is Some <==> old(self).inbox_map().contains_key(session_id@),
            r matches Some(q) ==> q@ == old(self).inbox_map()[session_id@]
                && final(self).inbox_map() == old(self).inbox_map().insert(
                session_id@,
                Seq::<PtyCommand>::empty(),
            ),
            r is None ==> final(self).inbox_map() == old(self).inbox_map(),
            final(self).accepting() == old(self).accepting(),
            final(self).session_map() == old(self).session_map(),
    {
        match self.find_inbox(session_id) {
            Some(i) => {
                proof {
                    lemma_keyed_at(self.inboxes@, inbox_key(), i as int);
                }
                let open = self.inboxes[i].open;
                let mut queue: Vec<PtyCommand> = Vec::new();
                std::mem::swap(&mut queue, &mut self.inboxes[i].queue);
                let id = self.inboxes[i].session_id.clone();
                let updated = PtyInbox { session_id: id, queue: Vec::new(), open };
                proof {
                    assert(self.inboxes@ =~= old(self).inboxes@.update(i as int, self.inboxes@[i as int]));
                    lemma_keyed_update(old(self).inboxes@, inbox_key(), i as int, self.inboxes@[i as int]);
                    lemma_views_insert(keyed_map(old(self).inboxes@, inbox_key()), session_id@, self.inboxes@[i as int]);
                }
                self.replace_inbox(i, updated);
                proof {
                    assert(updated.queue@ =~= Seq::<PtyCommand>::empty());
                    assert(keyed_map(self.inboxes@, inbox_key()) =~= keyed_map(old(self).inboxes@, inbox_key()).insert(session_id@, updated));
                    lemma_views_insert(keyed_map(old(self).inboxes@, inbox_key()), session_id@, updated);
                    if open {
                        assert(old(self).accepting().insert(session_id@) =~= old(self).accepting());
                    } else {
                        assert(old(self).accepting().remove(session_id@) =~= old(self).accepting());
                    }
                }
                Some(queue)
            },
            None => None,
        }
    }

    /// Tells the worker of `session_id` to stop: `Close` is queued after anything still
    /// waiting, and the inbox takes no more requests. The worker unregisters the inbox
    /// once it has drained it (`unregister_pty_channel`).
    pub fn remove_pty_channel(&mut self, session_id: &str)
        requires
            old(self).wf(),
        ensures
            final(self).wf(),
            final(self).inbox_map() == close_signalled(
                old(self).inbox_map(),
                old(self).accepting(),
                session_id@,
            ),
            final(self).accepting() == old(self).accepting().remove(session_id@),
            final(self).session_map() == old(self).session_map(),
    {
        match self.find_inbox(session_id) {
            Some(i) => {
                proof {
                    lemma_keyed_at(self.inboxes@, inbox_key(), i as int);
                }
                if !self.inboxes[i].open {
                    assert(old(self).accepting().remove(session_id@) =~= old(self).accepting());
                    return;
                }
                let ghost old_box = self.inboxes@[i as int];
                let mut queue: Vec<PtyCommand> = Vec::new();
                std::mem::swap(&mut queue, &mut self.inboxes[i].queue);
                queue.push(PtyCommand::Close);
                let id = self.inboxes[i].session_id.clone();
                let updated = PtyInbox { session_id: id, queue, open: false };
                proof {
                    assert(self.inboxes@ =~= old(self).inboxes@.update(i as int, self.inboxes@[i as int]));
                    lemma_keyed_update(old(self).inboxes@, inbox_key(), i as int, self.inboxes@[i as int]);
                    lemma_views_insert(keyed_map(old(self).inboxes@, inbox_key()), session_id@, self.inboxes@[i as int]);
                }
                self.replace_inbox(i, updated);
                proof {
                    assert(updated.queue@ == old_box.queue@.push(PtyCommand::Close));
                    assert(keyed_map(self.inboxes@, inbox_key()) =~= keyed_map(old(self).inboxes@, inbox_key()).insert(session_id@, updated));
                    lemma_views_insert(keyed_map(old(self).inboxes@, inbox_key()), session_id@, updated);
                }
            },
            None => {
                assert(old(self).accepting().remove(session_id@) =~= old(self).accepting());
            },
        }
    }

    /// Unregisters the inbox of `session_id`; called by its worker as it stops.
    pub fn unregister_pty_channel(&mut self, session_id: &str)
        requires
            old(self).wf(),
        ensures
            final(self).wf(),
            final(self).inbox_map() == old(self).inbox_map().remove(session_id@),
            final(self).accepting() == old(self).accepting().remove(session_id@),
            final(self).session_map() == old(self).session_map(),
    {
        match self.find_inbox(session_id) {
            Some(i) => {
                proof {
                    lemma_keyed_remove(self.inboxes@, inbox_key(), i as int);
                }
                self.inboxes.remove(i);
                proof {
                    lemma_views_remove(keyed_map(old(self).inboxes@, inbox_key()), session_id@);
                }
            },
            None => {
                assert(old(self).inbox_map().remove(session_id@) =~= old(self).inbox_map());
                assert(old(self).accepting().remove(session_id@) =~= old(self).accepting());
            },
        }
    }

    /// Whether the inbox of `session_id` still takes requests.
    pub fn has_pty_channel(&self, session_id: &str) -> (r: bool)
        requires
            self.wf(),
        ensures
            r == self.accepting().contains(session_id@),
    {
        match self.find_inbox(session_id) {
            Some(i) => {
                proof {
                    lemma_keyed_at(self.inboxes@, inbox_key(), i as int);
                }
                self.inboxes[i].open
            },
            None => false,
        }
    }

    /// Replaces the output buffer of a session and stamps it; returns the updated record.
    pub fn set_session_output(&mut self, session_id: &str, output: String) -> (r: AppResult<
        ShellSession,
    >)
        requires
            old(self).wf(),
        ensures
            final(self).wf(),
            final(self).inbox_map() == old(self).inbox_map(),
            final(self).accepting() == old(self).accepting(),
            r is Ok <==> old(self).session_map().contains_key(session_id@),
            r matches Err(e) ==> e is NotFound && final(self).session_map() == old(self).session_map(),
            r matches Ok(s) ==> s == final(self).session_map()[session_id@] && output_replaced(
                old(self).session_map()[session_id@],
                s,
                output@,
            ) && final(self).session_map() == old(self).session_map().insert(session_id@, s),
    {
        match self.find_session(session_id) {
            Some(i) => {
                proof {
                    lemma_keyed_at(self.sessions@, session_key(), i as int);
                }
                let mut s = self.sessions[i].duplicate();
                s.last_output = output;
                s.updated_at = now_rfc3339();
                let copy = s.duplicate();
                self.replace_session(i, s);
                proof {
                    lemma_keyed_at(self.sessions@, session_key(), i as int);
                }
                Ok(copy)
            },
            None => Err(AppError::NotFound(copy_str(session_id))),
        }
    }

    /// Moves a session to `dir` with `output` as its buffer, and stamps it.
    pub fn set_session_directory(&mut self, session_id: &str, dir: String, output: String) -> (r:
        AppResult<ShellSession>)
        requires
            old(self).wf(),
        ensures
            final(self).wf(),
            final(self).inbox_map() == old(self).inbox_map(),
            final(self).accepting() == old(self).accepting(),
            r is Ok <==> old(self).session_map().contains_key(session_id@),
            r matches Err(e) ==> e is NotFound && final(self).session_map() == old(self).session_map(),
            r matches Ok(s) ==> s == final(self).session_map()[session_id@] && directory_changed(
                old(self).session_map()[session_id@],
                s,
                dir@,
                output@,
            ) && final(self).session_map() == old(self).session_map().insert(session_id@, s),
    {
        match self.find_session(session_id) {
            Some(i) => {
                proof {
                    lemma_keyed_at(self.sessions@, session_key(), i as int);
                }
                let mut s = self.sessions[i].duplicate();
                s.current_dir = dir;
                s.last_output = output;
                s.updated_at = now_rfc3339();
                let copy = s.duplicate();
                self.replace_session(i, s);
                proof {
                    lemma_keyed_at(self.sessions@, session_key(), i as int);
                }
                Ok(copy)
            },
            None => Err(AppError::NotFound(copy_str(session_id))),
        }
    }
}

} // verus!
