//! The agent store: conversations, their messages and the pending actions, with the
//! rules that change them. Files on disk are written by the caller after each change.
use vstd::prelude::*;
use crate::agent_types::{
    dup_opt, OpsAgentActionStatus, OpsAgentConversation, OpsAgentConversationSummary,
    OpsAgentData, OpsAgentMessage, OpsAgentPendingAction, OpsAgentRole, OpsAgentToolKind,
};
use crate::clock::now_rfc3339;
use crate::error::{AppError, AppResult};
use crate::ids::fresh_id;
use crate::keyed::{first_key_index, has_key, is_first_key, lemma_first_key_index, lemma_has_first_key};
use crate::remote_path::slice_range;
use crate::text::{
    append_chars, chars_of, copy_str, is_blank, is_blank_str, lemma_text_lt_asym,
    lemma_text_lt_total, lemma_text_lt_trans, str_eq, str_lt, string_of, text_lt, trim, trim_chars,
};

verus! {

/// The title of a conversation created without one.
pub open spec fn default_title() -> Seq<char> {
    "New Conversation"@
}

/// How many characters of the first question an automatic title keeps.
pub const AUTO_TITLE_MAX_CHARS: usize = 10;

/// How many characters of an explicit title are kept.
pub const EXPLICIT_TITLE_MAX_CHARS: usize = 24;

/// How many characters of the last message a summary shows.
pub const PREVIEW_MAX_CHARS: usize = 120;

/// `s` with every `from` replaced by `to`.
pub open spec fn replace_char(s: Seq<char>, from: char, to: char) -> Seq<char> {
    s.map_values(|c: char| if c == from { to } else { c })
}

/// The first `n` characters of `s`, followed by `...` when something was cut.
pub open spec fn shortened(s: Seq<char>, n: nat) -> Seq<char> {
    if s.len() <= n {
        s
    } else {
        s.take(n as int) + "..."@
    }
}

/// The title given to a new conversation.
pub open spec fn conversation_title(title: Option<Seq<char>>) -> Seq<char> {
    let source = trim(
        match title {
            Some(t) => t,
            None => Seq::empty(),
        },
    );
    if source.len() == 0 {
        default_title()
    } else {
        shortened(replace_char(source, '\n', ' '), EXPLICIT_TITLE_MAX_CHARS as nat)
    }
}

/// Whether a title is still the placeholder (or blank), so that a question may name it.
pub open spec fn title_is_placeholder(title: Seq<char>) -> bool {
    trim(title).len() == 0 || trim(title) == default_title()
}

/// The title derived from a conversation's first question.
pub open spec fn prompt_title(prompt: Seq<char>) -> Seq<char> {
    let compact = trim(replace_char(replace_char(prompt, '\r', ' '), '\n', ' '));
    if compact.len() == 0 {
        default_title()
    } else {
        shortened(compact, AUTO_TITLE_MAX_CHARS as nat)
    }
}

/// The one-line preview of a message.
pub open spec fn preview_of(content: Seq<char>) -> Seq<char> {
    shortened(replace_char(trim(content), '\n', ' '), PREVIEW_MAX_CHARS as nat)
}

/// The view of an optional string.
pub open spec fn opt_view(o: Option<String>) -> Option<Seq<char>> {
    match o {
        Some(s) => Some(s@),
        None => None,
    }
}

/// The view of an optional borrowed string.
pub open spec fn opt_str_view(o: Option<&str>) -> Option<Seq<char>> {
    match o {
        Some(s) => Some(s@),
        None => None,
    }
}

/// Some message of `messages` was written by the user.
pub open spec fn has_user_message(messages: Seq<OpsAgentMessage>) -> bool {
    exists|i: int| 0 <= i < messages.len() && (#[trigger] messages[i]).role == OpsAgentRole::User
}

/// The title a conversation has after a message of `role` with text `content` is appended:
/// the first user message names a conversation whose title is still the placeholder.
pub open spec fn title_after_append(
    title: Seq<char>,
    messages: Seq<OpsAgentMessage>,
    role: OpsAgentRole,
    content: Seq<char>,
) -> Seq<char> {
    if role == OpsAgentRole::User && title_is_placeholder(title) && !has_user_message(messages) {
        prompt_title(trim(content))
    } else {
        title
    }
}

/// `a` and `b` hold the same conversation: the same fields and the same messages.
pub open spec fn same_conversation(a: OpsAgentConversation, b: OpsAgentConversation) -> bool {
    &&& a.id == b.id
    &&& a.title == b.title
    &&& a.session_id == b.session_id
    &&& a.messages@ == b.messages@
    &&& a.created_at == b.created_at
    &&& a.updated_at == b.updated_at
}

/// Conversations other than `id`.
pub open spec fn other_conversation(id: Seq<char>) -> spec_fn(OpsAgentConversation) -> bool {
    |c: OpsAgentConversation| c.id@ != id
}

/// Actions that do not belong to conversation `id`.
pub open spec fn action_outside(id: Seq<char>) -> spec_fn(OpsAgentPendingAction) -> bool {
    |a: OpsAgentPendingAction| a.conversation_id@ != id
}

/// Whether an action passes the list filter: bound to `session` (when one is given)
/// and still pending (when `only_pending`).
pub open spec fn action_selected(
    a: OpsAgentPendingAction,
    session: Option<Seq<char>>,
    only_pending: bool,
) -> bool {
    &&& (session is None || opt_view(a.session_id) == session)
    &&& (!only_pending || a.status == OpsAgentActionStatus::Pending)
}

/// The list filter as a predicate.
pub open spec fn action_filter(session: Option<Seq<char>>, only_pending: bool) -> spec_fn(
    OpsAgentPendingAction,
) -> bool {
    |a: OpsAgentPendingAction| action_selected(a, session, only_pending)
}

/// The active conversation after the list changed: kept while it still exists,
/// otherwise the first conversation, if any.
pub open spec fn repaired_active(
    active: Option<Seq<char>>,
    conversations: Seq<OpsAgentConversation>,
) -> Option<Seq<char>> {
    if active is Some && has_key(conversations, conversation_key(), active->0) {
        active
    } else if conversations.len() > 0 {
        Some(conversations[0].id@)
    } else {
        None
    }
}

/// `new` is `old` with at most the update times of conversations changed.
pub open spec fn only_touched(old: Seq<OpsAgentConversation>, new: Seq<OpsAgentConversation>) -> bool {
    &&& new.len() == old.len()
    &&& forall|j: int|
        0 <= j < old.len() ==> {
            &&& (#[trigger] new[j]).id == old[j].id
            &&& new[j].title == old[j].title
            &&& new[j].session_id == old[j].session_id
            &&& new[j].messages@ == old[j].messages@
            &&& new[j].created_at == old[j].created_at
        }
}

/// `new` is `old` with at most the update time of the first conversation with id
/// `cid` changed.
pub open spec fn conversation_stamped(
    old: Seq<OpsAgentConversation>,
    new: Seq<OpsAgentConversation>,
    cid: Seq<char>,
) -> bool {
    if has_key(old, conversation_key(), cid) {
        let k = first_key_index(old, conversation_key(), cid);
        &&& new == old.update(k, new[k])
        &&& new[k].id == old[k].id
        &&& new[k].title == old[k].title
        &&& new[k].session_id == old[k].session_id
        &&& new[k].messages@ == old[k].messages@
        &&& new[k].created_at == old[k].created_at
    } else {
        new == old
    }
}

/// `after` is `before` resolved to `status` with the given outcome; the proposal itself is kept.
pub open spec fn action_resolved(
    before: OpsAgentPendingAction,
    after: OpsAgentPendingAction,
    status: OpsAgentActionStatus,
    output: Option<Seq<char>>,
    exit_code: Option<i32>,
) -> bool {
    &&& after.id == before.id
    &&& after.conversation_id == before.conversation_id
    &&& after.session_id == before.session_id
    &&& after.command == before.command
    &&& after.reason == before.reason
    &&& after.created_at == before.created_at
    &&& after.status == status
    &&& after.resolved_at is Some
    &&& opt_view(after.execution_output) == output
    &&& after.execution_exit_code == exit_code
}

/// The key of a conversation.
pub open spec fn conversation_key() -> spec_fn(OpsAgentConversation) -> Seq<char> {
    |c: OpsAgentConversation| c.id@
}

/// The key of a pending action.
pub open spec fn action_key() -> spec_fn(OpsAgentPendingAction) -> Seq<char> {
    |a: OpsAgentPendingAction| a.id@
}

fn replace_chars(v: &[char], from: char, to: char) -> (r: Vec<char>)
    ensures
        r@ == replace_char(v@, from, to),
{
    let mut out: Vec<char> = Vec::new();
    let mut i: usize = 0;
    while i < v.len()
        invariant
            i <= v@.len(),
            out@ == replace_char(v@.take(i as int), from, to),
        decreases v@.len() - i,
    {
        let c = v[i];
        out.push(if c == from { to } else { c });
        i = i + 1;
        assert(out@ =~= replace_char(v@.take(i as int), from, to));
    }
    assert(v@.take(i as int) =~= v@);
    out
}

fn shorten(v: &[char], n: usize) -> (r: String)
    ensures
        r@ == shortened(v@, n as nat),
{
    if v.len() <= n {
        string_of(v)
    } else {
        let head = slice_range(v, 0, n);
        let mut out = string_of(head.as_slice());
        let dots = chars_of("...");
        append_chars(&mut out, dots.as_slice());
        assert(v@.take(n as int) =~= v@.subrange(0, n as int));
        out
    }
}

/// The title given to a new conversation: the trimmed explicit title on one line,
/// cut to `EXPLICIT_TITLE_MAX_CHARS` characters, or the placeholder.
pub fn derive_conversation_title(title: Option<&str>) -> (r: String)
    ensures
        r@ == conversation_title(opt_str_view(title)),
{
    let source = match title {
        Some(t) => chars_of(t),
        None => Vec::new(),
    };
    let ghost src = match title {
        Some(t) => t@,
        None => Seq::<char>::empty(),
    };
    assert(source@ == src);
    let trimmed = trim_chars(source.as_slice());
    if trimmed.len() == 0 {
        return copy_str("New Conversation");
    }
    let compact = replace_chars(trimmed.as_slice(), '\n', ' ');
    shorten(compact.as_slice(), EXPLICIT_TITLE_MAX_CHARS)
}

/// Whether a title is still the placeholder (or blank).
pub fn should_auto_rename_title(current_title: &str) -> (r: bool)
    ensures
        r == title_is_placeholder(current_title@),
{
    let chars = chars_of(current_title);
    let t = trim_chars(chars.as_slice());
    if t.len() == 0 {
        return true;
    }
    let placeholder = chars_of("New Conversation");
    let ts = string_of(t.as_slice());
    let ps = string_of(placeholder.as_slice());
    ts == ps
}

/// The title derived from a first question: on one line, trimmed, cut to
/// `AUTO_TITLE_MAX_CHARS` characters; the placeholder when nothing is left.
pub fn derive_title_from_first_user_prompt(prompt: &str) -> (r: String)
    ensures
        r@ == prompt_title(prompt@),
{
    let chars = chars_of(prompt);
    let a = replace_chars(chars.as_slice(), '\r', ' ');
    let b = replace_chars(a.as_slice(), '\n', ' ');
    let compact = trim_chars(b.as_slice());
    if compact.len() == 0 {
        return copy_str("New Conversation");
    }
    shorten(compact.as_slice(), AUTO_TITLE_MAX_CHARS)
}

fn copy_opt_str(o: Option<&str>) -> (r: Option<String>)
    ensures
        opt_view(r) == opt_str_view(o),
{
    match o {
        Some(s) => Some(copy_str(s)),
        None => None,
    }
}

/// `s` is what a conversation list shows of `c` (see `from_conversation`).
pub open spec fn summarizes(s: OpsAgentConversationSummary, c: OpsAgentConversation) -> bool {
    &&& s.id == c.id
    &&& s.title == c.title
    &&& s.session_id == c.session_id
    &&& s.message_count == c.messages@.len()
    &&& s.created_at == c.created_at
    &&& s.updated_at == c.updated_at
    &&& c.messages@.len() == 0 ==> s.last_message_preview is None
    &&& c.messages@.len() > 0 ==> opt_view(s.last_message_preview) == Some(
        preview_of(c.messages@.last().content@),
    )
}

/// Rows ordered by update time, most recent first.
pub open spec fn newest_first(rows: Seq<OpsAgentConversationSummary>) -> bool {
    forall|i: int, j: int|
        0 <= i < j < rows.len() ==> !text_lt(#[trigger] rows[i].updated_at@, #[trigger] rows[j].updated_at@)
}

fn sort_newest_first(rows: Vec<OpsAgentConversationSummary>) -> (r: Vec<OpsAgentConversationSummary>)
    ensures
        r@.to_multiset() == rows@.to_multiset(),
        newest_first(r@),
{
    let ghost orig = rows@;
    let mut source = rows;
    let mut out: Vec<OpsAgentConversationSummary> = Vec::new();
    let mut n: usize = 0;
    let total = source.len();
    assert(orig.skip(0) =~= orig);
    assert(orig.take(0) =~= Seq::<OpsAgentConversationSummary>::empty());
    while source.len() > 0
        invariant
            n + source@.len() == total,
            total == orig.len(),
            source@ == orig.skip(n as int),
            out@.to_multiset() == orig.take(n as int).to_multiset(),
            newest_first(out@),
        decreases source@.len(),
    {
        let x = source.remove(0);
        assert(orig.skip(n + 1) =~= orig.skip(n as int).remove(0));
        assert(orig.take(n + 1) =~= orig.take(n as int).push(x));
        let mut pos: usize = 0;
        while pos < out.len() && !str_lt(out[pos].updated_at.as_str(), x.updated_at.as_str())
            invariant
                pos <= out@.len(),
                forall|j: int| 0 <= j < pos ==> !text_lt(#[trigger] out@[j].updated_at@, x.updated_at@),
            decreases out@.len() - pos,
        {
            pos = pos + 1;
        }
        let ghost old_out = out@;
        let ghost gx = x;
        out.insert(pos, x);
        proof {
            vstd::seq_lib::to_multiset_insert(old_out, pos as int, gx);
            vstd::seq_lib::to_multiset_build(orig.take(n as int), gx);
            let key = gx.updated_at@;
            assert forall|a: int, b: int| 0 <= a < b < out@.len() implies !text_lt(
                #[trigger] out@[a].updated_at@,
                #[trigger] out@[b].updated_at@,
            ) by {
                if a < pos && b < pos {
                    assert(out@[a] == old_out[a] && out@[b] == old_out[b]);
                } else if a < pos && b == pos {
                    assert(out@[a] == old_out[a]);
                } else if a < pos && b > pos {
                    assert(out@[a] == old_out[a] && out@[b] == old_out[b - 1]);
                } else if a == pos {
                    let y = old_out[b - 1].updated_at@;
                    let p = old_out[pos as int].updated_at@;
                    assert(out@[b] == old_out[b - 1]);
                    assert(text_lt(p, key));
                    if text_lt(key, y) {
                        if b - 1 == pos {
                            lemma_text_lt_asym(p, key);
                        } else {
                            assert(!text_lt(p, y));
                            lemma_text_lt_total(p, y);
                            if text_lt(y, p) {
                                lemma_text_lt_trans(key, y, p);
                            }
                            lemma_text_lt_asym(p, key);
                        }
                    }
                } else {
                    assert(out@[a] == old_out[a - 1] && out@[b] == old_out[b - 1]);
                }
            }
        }
        n = n + 1;
    }
    assert(orig.take(n as int) =~= orig);
    out
}

impl OpsAgentConversationSummary {
    /// What a conversation list shows of `conversation`: its fields, its message count
    /// and a one-line preview of its last message.
    pub fn from_conversation(conversation: &OpsAgentConversation) -> (r: Self)
        ensures
            r.id == conversation.id,
            r.title == conversation.title,
            r.session_id == conversation.session_id,
            r.message_count == conversation.messages@.len(),
            r.created_at == conversation.created_at,
            r.updated_at == conversation.updated_at,
            conversation.messages@.len() == 0 ==> r.last_message_preview is None,
            conversation.messages@.len() > 0 ==> opt_view(r.last_message_preview) == Some(
                preview_of(conversation.messages@.last().content@),
            ),
    {
        let n = conversation.messages.len();
        let last_message_preview = if n == 0 {
            None
        } else {
            let chars = chars_of(conversation.messages[n - 1].content.as_str());
            let t = trim_chars(chars.as_slice());
            let one_line = replace_chars(t.as_slice(), '\n', ' ');
            Some(shorten(one_line.as_slice(), PREVIEW_MAX_CHARS))
        };
        OpsAgentConversationSummary {
            id: conversation.id.clone(),
            title: conversation.title.clone(),
            session_id: dup_opt(&conversation.session_id),
            message_count: n,
            last_message_preview,
            created_at: conversation.created_at.clone(),
            updated_at: conversation.updated_at.clone(),
        }
    }
}

/// `new` is `old` with message `m` appended to the first conversation with id `cid`,
/// which keeps its place and becomes the active one; other conversations are unchanged.
pub open spec fn message_appended(
    old: OpsAgentStore,
    new: OpsAgentStore,
    cid: Seq<char>,
    m: OpsAgentMessage,
) -> bool {
    let i = old.conversation_index(cid);
    &&& old.has_conversation(cid)
    &&& new.has_conversation(cid)
    &&& new.conversation_index(cid) == i
    &&& new.conversations() == old.conversations().update(i, new.conversations()[i])
    &&& new.conversations()[i].id == old.conversations()[i].id
    &&& new.conversations()[i].session_id == old.conversations()[i].session_id
    &&& new.conversations()[i].created_at == old.conversations()[i].created_at
    &&& new.conversations()[i].messages@ == old.conversations()[i].messages@.push(m)
    &&& new.active_id() == Some(cid)
}

/// `new` is `old` with a message of `role`, `tool_kind` and the trimmed `content`
/// appended to conversation `cid` (see `message_appended`).
pub open spec fn answered(
    old: OpsAgentStore,
    new: OpsAgentStore,
    cid: Seq<char>,
    role: OpsAgentRole,
    content: Seq<char>,
    tool_kind: Option<OpsAgentToolKind>,
) -> bool {
    let m = new.conversations()[old.conversation_index(cid)].messages@.last();
    &&& message_appended(old, new, cid, m)
    &&& m.role == role
    &&& m.content@ == trim(content)
    &&& m.tool_kind == tool_kind
}

/// Replacing the conversation at the first position of `cid` by one with the same id
/// keeps that position first.
pub proof fn lemma_update_keeps_first(s: Seq<OpsAgentConversation>, cid: Seq<char>, i: int, c: OpsAgentConversation)
    requires
        is_first_key(s, conversation_key(), cid, i),
        c.id@ == cid,
    ensures
        is_first_key(s.update(i, c), conversation_key(), cid, i),
        first_key_index(s.update(i, c), conversation_key(), cid) == i,
        has_key(s.update(i, c), conversation_key(), cid),
{
    let t = s.update(i, c);
    assert forall|j: int| 0 <= j < i implies (conversation_key())(#[trigger] t[j]) != cid by {
        assert(t[j] == s[j]);
    }
    lemma_first_key_index(t, conversation_key(), cid, i);
}

/// Changing only update times keeps every conversation lookup.
pub proof fn lemma_touched_keeps_lookup(old: Seq<OpsAgentConversation>, new: Seq<OpsAgentConversation>, cid: Seq<char>)
    requires
        only_touched(old, new),
    ensures
        has_key(new, conversation_key(), cid) == has_key(old, conversation_key(), cid),
        has_key(old, conversation_key(), cid) ==> first_key_index(new, conversation_key(), cid)
            == first_key_index(old, conversation_key(), cid),
{
    if has_key(old, conversation_key(), cid) {
        let j = choose|j: int| 0 <= j < old.len() && (conversation_key())(#[trigger] old[j]) == cid;
        assert((conversation_key())(new[j]) == cid);
        lemma_has_first_key(old, conversation_key(), cid);
        let i = first_key_index(old, conversation_key(), cid);
        assert forall|k: int| 0 <= k < i implies (conversation_key())(#[trigger] new[k]) != cid by {
            assert(new[k].id == old[k].id);
        }
        assert(new[i].id == old[i].id);
        lemma_first_key_index(new, conversation_key(), cid, i);
    }
    if has_key(new, conversation_key(), cid) {
        let j = choose|j: int| 0 <= j < new.len() && (conversation_key())(#[trigger] new[j]) == cid;
        assert(new[j].id == old[j].id);
        assert((conversation_key())(old[j]) == cid);
    }
}

/// The agent's conversations and pending actions, held in memory.
pub struct OpsAgentStore {
    data: OpsAgentData,
}

impl OpsAgentStore {
    /// The conversations, in order.
    pub closed spec fn conversations(&self) -> Seq<OpsAgentConversation> {
        self.data.conversations@
    }

    /// The pending actions, in order of creation.
    pub closed spec fn actions(&self) -> Seq<OpsAgentPendingAction> {
        self.data.pending_actions@
    }

    /// The id of the active conversation, if any.
    pub closed spec fn active_id(&self) -> Option<Seq<char>> {
        opt_view(self.data.active_conversation_id)
    }

    /// Some conversation has id `id`.
    pub open spec fn has_conversation(&self, id: Seq<char>) -> bool {
        has_key(self.conversations(), conversation_key(), id)
    }

    /// The position of the first conversation with id `id`.
    pub open spec fn conversation_index(&self, id: Seq<char>) -> int {
        first_key_index(self.conversations(), conversation_key(), id)
    }

    /// The first conversation with id `id`.
    pub open spec fn conversation(&self, id: Seq<char>) -> OpsAgentConversation {
        self.conversations()[self.conversation_index(id)]
    }

    /// Some pending action has id `id`.
    pub open spec fn has_action(&self, id: Seq<char>) -> bool {
        has_key(self.actions(), action_key(), id)
    }

    /// The position of the first pending action with id `id`.
    pub open spec fn action_index(&self, id: Seq<char>) -> int {
        first_key_index(self.actions(), action_key(), id)
    }

    /// The first pending action with id `id`.
    pub open spec fn action(&self, id: Seq<char>) -> OpsAgentPendingAction {
        self.actions()[self.action_index(id)]
    }

    /// A store holding `data` as it is.
    pub fn from_data(data: OpsAgentData) -> (r: Self)
        ensures
            r.conversations() == data.conversations@,
            r.actions() == data.pending_actions@,
            r.active_id() == opt_view(data.active_conversation_id),
    {
        OpsAgentStore { data }
    }

    /// A copy of everything the store holds, for writing it out.
    pub fn snapshot(&self) -> (r: OpsAgentData)
        ensures
            r.conversations@.len() == self.conversations().len(),
            forall|i: int|
                0 <= i < r.conversations@.len() ==> same_conversation(
                    #[trigger] r.conversations@[i],
                    self.conversations()[i],
                ),
            r.pending_actions@ == self.actions(),
            opt_view(r.active_conversation_id) == self.active_id(),
    {
        let mut conversations: Vec<OpsAgentConversation> = Vec::new();
        let mut i: usize = 0;
        while i < self.data.conversations.len()
            invariant
                i <= self.data.conversations@.len(),
                conversations@.len() == i,
                forall|j: int|
                    0 <= j < i ==> same_conversation(
                        #[trigger] conversations@[j],
                        self.data.conversations@[j],
                    ),
            decreases self.data.conversations@.len() - i,
        {
            conversations.push(self.data.conversations[i].duplicate());
            i = i + 1;
        }
        let mut actions: Vec<OpsAgentPendingAction> = Vec::new();
        let mut k: usize = 0;
        while k < self.data.pending_actions.len()
            invariant
                k <= self.data.pending_actions@.len(),
                actions@ == self.data.pending_actions@.take(k as int),
            decreases self.data.pending_actions@.len() - k,
        {
            actions.push(self.data.pending_actions[k].duplicate());
            k = k + 1;
            assert(actions@ =~= self.data.pending_actions@.take(k as int));
        }
        assert(self.data.pending_actions@.take(k as int) =~= self.data.pending_actions@);
        OpsAgentData {
            conversations,
            active_conversation_id: dup_opt(&self.data.active_conversation_id),
            pending_actions: actions,
        }
    }

    fn conversation_ids(&self) -> (r: Vec<String>)
        ensures
            r@.len() == self.conversations().len(),
            forall|i: int| 0 <= i < r@.len() ==> (#[trigger] r@[i])@ == self.conversations()[i].id@,
    {
        let mut out: Vec<String> = Vec::new();
        let mut i: usize = 0;
        while i < self.data.conversations.len()
            invariant
                i <= self.data.conversations@.len(),
                out@.len() == i,
                forall|j: int| 0 <= j < i ==> (#[trigger] out@[j])@ == self.data.conversations@[j].id@,
            decreases self.data.conversations@.len() - i,
        {
            out.push(self.data.conversations[i].id.clone());
            i = i + 1;
        }
        out
    }

    fn action_ids(&self) -> (r: Vec<String>)
        ensures
            r@.len() == self.actions().len(),
            forall|i: int| 0 <= i < r@.len() ==> (#[trigger] r@[i])@ == self.actions()[i].id@,
    {
        let mut out: Vec<String> = Vec::new();
        let mut i: usize = 0;
        while i < self.data.pending_actions.len()
            invariant
                i <= self.data.pending_actions@.len(),
                out@.len() == i,
                forall|j: int| 0 <= j < i ==> (#[trigger] out@[j])@ == self.data.pending_actions@[j].id@,
            decreases self.data.pending_actions@.len() - i,
        {
            out.push(self.data.pending_actions[i].id.clone());
            i = i + 1;
        }
        out
    }

    fn find_conversation(&self, id: &str) -> (r: Option<usize>)
        ensures
            r matches Some(i) ==> is_first_key(
                self.conversations(),
                conversation_key(),
                id@,
                i as int,
            ) && self.conversation_index(id@) == i && self.has_conversation(id@),
            r is None ==> !self.has_conversation(id@),
    {
        let mut i: usize = 0;
        while i < self.data.conversations.len()
            invariant
                i <= self.data.conversations@.len(),
                forall|j: int|
                    0 <= j < i ==> (conversation_key())(#[trigger] self.data.conversations@[j])
                        != id@,
            decreases self.data.conversations@.len() - i,
        {
            if str_eq(self.data.conversations[i].id.as_str(), id) {
                proof {
                    lemma_first_key_index(self.conversations(), conversation_key(), id@, i as int);
                }
                return Some(i);
            }
            i = i + 1;
        }
        None
    }

    fn find_action(&self, id: &str) -> (r: Option<usize>)
        ensures
            r matches Some(i) ==> is_first_key(self.actions(), action_key(), id@, i as int)
                && self.action_index(id@) == i && self.has_action(id@),
            r is None ==> !self.has_action(id@),
    {
        let mut i: usize = 0;
        while i < self.data.pending_actions.len()
            invariant
                i <= self.data.pending_actions@.len(),
                forall|j: int|
                    0 <= j < i ==> (action_key())(#[trigger] self.data.pending_actions@[j])
                        != id@,
            decreases self.data.pending_actions@.len() - i,
        {
            if str_eq(self.data.pending_actions[i].id.as_str(), id) {
                proof {
                    lemma_first_key_index(self.actions(), action_key(), id@, i as int);
                }
                return Some(i);
            }
            i = i + 1;
        }
        None
    }

    /// The first conversation with id `id`.
    pub fn get_conversation(&self, id: &str) -> (r: AppResult<OpsAgentConversation>)
        ensures
            r is Ok <==> self.has_conversation(id@),
            r matches Err(e) ==> e is NotFound,
            r matches Ok(c) ==> same_conversation(c, self.conversation(id@)),
    {
        match self.find_conversation(id) {
            Some(i) => Ok(self.data.conversations[i].duplicate()),
            None => Err(AppError::NotFound(copy_str(id))),
        }
    }

    /// One summary per conversation, the most recently updated first.
    pub fn list_conversation_summaries(&self) -> (r: Vec<OpsAgentConversationSummary>)
        ensures
            newest_first(r@),
            exists|rows: Seq<OpsAgentConversationSummary>|
                rows.len() == self.conversations().len() && (forall|i: int|
                    0 <= i < rows.len() ==> summarizes(#[trigger] rows[i], self.conversations()[i]))
                    && r@.to_multiset() == #[trigger] rows.to_multiset(),
    {
        let mut rows: Vec<OpsAgentConversationSummary> = Vec::new();
        let mut i: usize = 0;
        while i < self.data.conversations.len()
            invariant
                i <= self.data.conversations@.len(),
                rows@.len() == i,
                forall|j: int|
                    0 <= j < i ==> summarizes(#[trigger] rows@[j], self.data.conversations@[j]),
            decreases self.data.conversations@.len() - i,
        {
            rows.push(OpsAgentConversationSummary::from_conversation(&self.data.conversations[i]));
            i = i + 1;
        }
        let ghost unsorted = rows@;
        let sorted = sort_newest_first(rows);
        assert(unsorted.len() == self.conversations().len());
        assert(sorted@.to_multiset() == unsorted.to_multiset());
        sorted
    }

    /// Starts a conversation, titled from `title` (see `conversation_title`), and makes it active.
    pub fn create_conversation(&mut self, title: Option<&str>, session_id: Option<&str>) -> (r:
        OpsAgentConversation)
        ensures
            r.title@ == conversation_title(opt_str_view(title)),
            opt_view(r.session_id) == opt_str_view(session_id),
            r.messages@.len() == 0,
            r.created_at == r.updated_at,
            final(self).conversations().len() == old(self).conversations().len() + 1,
            final(self).conversations().drop_last() == old(self).conversations(),
            same_conversation(final(self).conversations().last(), r),
            final(self).actions() == old(self).actions(),
            final(self).active_id() == Some(r.id@),
            forall|i: int|
                0 <= i < old(self).conversations().len() ==> (#[trigger] old(self).conversations()[i]).id@ != r.id@,
    {
        let now = now_rfc3339();
        let taken = self.conversation_ids();
        let fresh = fresh_id(&taken);
        assert forall|i: int| 0 <= i < self.conversations().len() implies (#[trigger] self.conversations()[i]).id@ != fresh@ by {
            assert(taken@[i]@ == self.conversations()[i].id@);
        }
        let conversation = OpsAgentConversation {
            id: fresh,
            title: derive_conversation_title(title),
            session_id: copy_opt_str(session_id),
            messages: Vec::new(),
            created_at: now.clone(),
            updated_at: now,
        };
        self.data.active_conversation_id = Some(conversation.id.clone());
        let copy = conversation.duplicate();
        self.data.conversations.push(conversation);
        assert(self.data.conversations@.drop_last() =~= old(self).data.conversations@);
        copy
    }

    /// Binds an existing conversation to `session_id` when it has no session yet and
    /// makes it active; without an id, starts a new conversation.
    pub fn ensure_conversation(&mut self, conversation_id: Option<&str>, session_id: Option<&str>) -> (r:
        AppResult<OpsAgentConversation>)
        ensures
            conversation_id is None ==> ({
                let c = r->Ok_0;
                &&& r is Ok
                &&& final(self).conversations().len() == old(self).conversations().len() + 1
                &&& final(self).conversations().drop_last() == old(self).conversations()
                &&& same_conversation(final(self).conversations().last(), c)
                &&& c.title@ == default_title()
                &&& c.messages@.len() == 0
                &&& opt_view(c.session_id) == opt_str_view(session_id)
                &&& final(self).active_id() == Some(c.id@)
                &&& forall|i: int|
                    0 <= i < old(self).conversations().len() ==> (#[trigger] old(self).conversations()[i]).id@ != c.id@
            }),
            conversation_id matches Some(id) ==> (r is Ok <==> old(self).has_conversation(id@)),
            r matches Err(e) ==> e is NotFound && final(self).conversations() == old(self).conversations() && final(self).active_id() == old(self).active_id(),
            conversation_id is Some && r is Ok ==> ({
                let id = conversation_id->0;
                let i = old(self).conversation_index(id@);
                let before = old(self).conversations()[i];
                let after = final(self).conversations()[i];
                &&& final(self).conversations() == old(self).conversations().update(i, after)
                &&& same_conversation(after, r->Ok_0)
                &&& after.id == before.id
                &&& after.title == before.title
                &&& after.messages@ == before.messages@
                &&& after.created_at == before.created_at
                &&& before.session_id is Some ==> after.session_id == before.session_id
                &&& before.session_id is None ==> opt_view(after.session_id) == opt_str_view(
                    session_id,
                )
                &&& final(self).active_id() == Some(id@)
                &&& final(self).has_conversation(id@)
                &&& final(self).conversation_index(id@) == i
            }),
            final(self).actions() == old(self).actions(),
    {
        match conversation_id {
            Some(id) => {
                match self.find_conversation(id) {
                    Some(i) => {
                        let mut c = self.data.conversations[i].duplicate();
                        if c.session_id.is_none() {
                            c.session_id = copy_opt_str(session_id);
                            c.updated_at = now_rfc3339();
                        }
                        let copy = c.duplicate();
                        let ghost cnew = c;
                        self.data.conversations.set(i, c);
                        self.data.active_conversation_id = Some(copy_str(id));
                        assert(self.data.conversations@ =~= old(self).data.conversations@.update(
                            i as int,
                            self.data.conversations@[i as int],
                        ));
                        proof {
                            lemma_update_keeps_first(old(self).conversations(), id@, i as int, cnew);
                        }
                        Ok(copy)
                    },
                    None => Err(AppError::NotFound(copy_str(id))),
                }
            },
            None => Ok(self.create_conversation(None, session_id)),
        }
    }

    /// Makes conversation `id` the active one.
    pub fn set_active_conversation(&mut self, id: &str) -> (r: AppResult<()>)
        ensures
            r is Ok <==> old(self).has_conversation(id@),
            r matches Err(e) ==> e is NotFound,
            r is Ok ==> final(self).active_id() == Some(id@),
            r is Err ==> final(self).active_id() == old(self).active_id(),
            final(self).conversations() == old(self).conversations(),
            final(self).actions() == old(self).actions(),
    {
        match self.find_conversation(id) {
            Some(_) => {
                self.data.active_conversation_id = Some(copy_str(id));
                Ok(())
            },
            None => Err(AppError::NotFound(copy_str(id))),
        }
    }

    /// Deletes every conversation with id `id` together with its pending actions, and
    /// repairs the active conversation.
    pub fn delete_conversation(&mut self, id: &str) -> (r: AppResult<()>)
        ensures
            r is Ok <==> old(self).has_conversation(id@),
            r matches Err(e) ==> e is NotFound,
            r is Err ==> final(self).conversations() == old(self).conversations() && final(self).actions() == old(self).actions() && final(self).active_id() == old(self).active_id(),
            r is Ok ==> final(self).conversations() == old(self).conversations().filter(
                other_conversation(id@),
            ) && final(self).actions() == old(self).actions().filter(action_outside(id@))
                && final(self).active_id() == repaired_active(
                old(self).active_id(),
                final(self).conversations(),
            ),
    {
        if self.find_conversation(id).is_none() {
            return Err(AppError::NotFound(copy_str(id)));
        }
        let mut source: Vec<OpsAgentConversation> = Vec::new();
        std::mem::swap(&mut source, &mut self.data.conversations);
        let ghost orig = source@;
        let mut kept: Vec<OpsAgentConversation> = Vec::new();
        let mut n: usize = 0;
        let total = source.len();
        assert(orig.skip(0) =~= orig);
        assert(orig.take(0).filter(other_conversation(id@)) =~= Seq::<OpsAgentConversation>::empty()) by {
            reveal(Seq::filter);
        }
        while source.len() > 0
            invariant
                n + source@.len() == total,
                total == orig.len(),
                source@ == orig.skip(n as int),
                kept@ == orig.take(n as int).filter(other_conversation(id@)),
            decreases source@.len(),
        {
            let c = source.remove(0);
            proof {
                reveal(Seq::filter);
                assert(orig.take(n + 1).drop_last() =~= orig.take(n as int));
                assert(orig.skip(n + 1) =~= orig.skip(n as int).remove(0));
            }
            let keep = !str_eq(c.id.as_str(), id);
            if keep {
                kept.push(c);
            }
            n = n + 1;
        }
        assert(orig.take(n as int) =~= orig);
        self.data.conversations = kept;

        let mut actions: Vec<OpsAgentPendingAction> = Vec::new();
        std::mem::swap(&mut actions, &mut self.data.pending_actions);
        let ghost aorig = actions@;
        let mut akept: Vec<OpsAgentPendingAction> = Vec::new();
        let mut m: usize = 0;
        let atotal = actions.len();
        assert(aorig.skip(0) =~= aorig);
        assert(aorig.take(0).filter(action_outside(id@)) =~= Seq::<OpsAgentPendingAction>::empty()) by {
            reveal(Seq::filter);
        }
        while actions.len() > 0
            invariant
                m + actions@.len() == atotal,
                atotal == aorig.len(),
                actions@ == aorig.skip(m as int),
                akept@ == aorig.take(m as int).filter(action_outside(id@)),
            decreases actions@.len(),
        {
            let a = actions.remove(0);
            proof {
                reveal(Seq::filter);
                assert(aorig.take(m + 1).drop_last() =~= aorig.take(m as int));
                assert(aorig.skip(m + 1) =~= aorig.skip(m as int).remove(0));
            }
            let keep = !str_eq(a.conversation_id.as_str(), id);
            if keep {
                akept.push(a);
            }
            m = m + 1;
        }
        assert(aorig.take(m as int) =~= aorig);
        self.data.pending_actions = akept;

        let active_valid = match &self.data.active_conversation_id {
            Some(active) => self.find_conversation(active.as_str()).is_some(),
            None => false,
        };
        if !active_valid {
            self.data.active_conversation_id = if self.data.conversations.len() > 0 {
                Some(self.data.conversations[0].id.clone())
            } else {
                None
            };
        }
        Ok(())
    }

    /// Appends a message with the trimmed `content` to a conversation and makes it
    /// active; the first user message names a conversation still under the placeholder
    /// title (see `title_after_append`). Blank content is refused.
    pub fn append_message(
        &mut self,
        conversation_id: &str,
        role: OpsAgentRole,
        content: &str,
        tool_kind: Option<OpsAgentToolKind>,
    ) -> (r: AppResult<OpsAgentMessage>)
        ensures
            r is Ok <==> !is_blank(content@) && old(self).has_conversation(conversation_id@),
            is_blank(content@) ==> (r matches Err(e) && e is Validation),
            !is_blank(content@) && !old(self).has_conversation(conversation_id@) ==> (r matches Err(
                e,
            ) && e is NotFound),
            r is Err ==> final(self).conversations() == old(self).conversations() && final(self).active_id() == old(self).active_id(),
            r matches Ok(m) ==> ({
                let i = old(self).conversation_index(conversation_id@);
                let before = old(self).conversations()[i];
                let after = final(self).conversations()[i];
                &&& final(self).conversations() == old(self).conversations().update(i, after)
                &&& after.id == before.id
                &&& after.session_id == before.session_id
                &&& after.created_at == before.created_at
                &&& after.messages@ == before.messages@.push(m)
                &&& after.title@ == title_after_append(
                    before.title@,
                    before.messages@,
                    role,
                    content@,
                )
                &&& m.role == role
                &&& m.content@ == trim(content@)
                &&& m.tool_kind == tool_kind
                &&& final(self).active_id() == Some(conversation_id@)
                &&& message_appended(*old(self), *final(self), conversation_id@, m)
                &&& forall|j: int|
                    0 <= j < before.messages@.len() ==> (#[trigger] before.messages@[j]).id@
                        != m.id@
            }),
            final(self).actions() == old(self).actions(),
    {
        let chars = chars_of(content);
        let trimmed_chars = trim_chars(chars.as_slice());
        if trimmed_chars.len() == 0 {
            return Err(AppError::Validation(copy_str("message content cannot be empty")));
        }
        let trimmed = string_of(trimmed_chars.as_slice());
        let i = match self.find_conversation(conversation_id) {
            Some(i) => i,
            None => {
                return Err(AppError::NotFound(copy_str(conversation_id)));
            },
        };
        let mut c = self.data.conversations[i].duplicate();
        let mut seen_user = false;
        let mut k: usize = 0;
        while k < c.messages.len()
            invariant
                k <= c.messages@.len(),
                seen_user == exists|j: int|
                    0 <= j < k && (#[trigger] c.messages@[j]).role == OpsAgentRole::User,
            decreases c.messages@.len() - k,
        {
            if c.messages[k].role == OpsAgentRole::User {
                seen_user = true;
            }
            k = k + 1;
        }
        let ghost before_messages = c.messages@;
        let mut taken: Vec<String> = Vec::new();
        let mut k2: usize = 0;
        while k2 < c.messages.len()
            invariant
                k2 <= c.messages@.len(),
                taken@.len() == k2,
                forall|j: int| 0 <= j < k2 ==> (#[trigger] taken@[j])@ == c.messages@[j].id@,
            decreases c.messages@.len() - k2,
        {
            taken.push(c.messages[k2].id.clone());
            k2 = k2 + 1;
        }
        let fresh = fresh_id(&taken);
        assert forall|j: int| 0 <= j < c.messages@.len() implies (#[trigger] c.messages@[j]).id@ != fresh@ by {
            assert(taken@[j]@ == c.messages@[j].id@);
        }
        let should_auto_title = role == OpsAgentRole::User && should_auto_rename_title(
            c.title.as_str(),
        ) && !seen_user;
        let message = OpsAgentMessage {
            id: fresh,
            role,
            content: trimmed,
            created_at: now_rfc3339(),
            tool_kind,
        };
        let copy = message.duplicate();
        c.messages.push(message);
        if should_auto_title {
            c.title = derive_title_from_first_user_prompt(copy.content.as_str());
        }
        c.updated_at = now_rfc3339();
        let ghost cnew = c;
        self.data.conversations.set(i, c);
        self.data.active_conversation_id = Some(copy_str(conversation_id));
        assert(self.data.conversations@ =~= old(self).data.conversations@.update(
            i as int,
            self.data.conversations@[i as int],
        ));
        proof {
            lemma_update_keeps_first(old(self).conversations(), conversation_id@, i as int, cnew);
        }
        Ok(copy)
    }

    /// The pending actions that pass the filter (see `action_selected`), in order.
    pub fn list_pending_actions(&self, session_id: Option<&str>, only_pending: bool) -> (r: Vec<
        OpsAgentPendingAction,
    >)
        ensures
            r@ == self.actions().filter(action_filter(opt_str_view(session_id), only_pending)),
    {
        let ghost pred = action_filter(opt_str_view(session_id), only_pending);
        let ghost all = self.data.pending_actions@;
        let mut out: Vec<OpsAgentPendingAction> = Vec::new();
        let mut i: usize = 0;
        assert(all.take(0).filter(pred) =~= Seq::<OpsAgentPendingAction>::empty()) by {
            reveal(Seq::filter);
        }
        while i < self.data.pending_actions.len()
            invariant
                all == self.data.pending_actions@,
                pred == action_filter(opt_str_view(session_id), only_pending),
                i <= all.len(),
                out@ == all.take(i as int).filter(pred),
            decreases all.len() - i,
        {
            let a = &self.data.pending_actions[i];
            let session_match = match session_id {
                Some(session) => match &a.session_id {
                    Some(own) => str_eq(own.as_str(), session),
                    None => false,
                },
                None => true,
            };
            let status_match = if only_pending {
                a.status == OpsAgentActionStatus::Pending
            } else {
                true
            };
            proof {
                reveal(Seq::filter);
                assert(all.take(i + 1).drop_last() =~= all.take(i as int));
                assert(all.take(i + 1).last() == all[i as int]);
                assert(status_match == (!only_pending || all[i as int].status
                    == OpsAgentActionStatus::Pending));
                assert(session_match == (opt_str_view(session_id) is None || opt_view(
                    all[i as int].session_id,
                ) == opt_str_view(session_id)));
                assert((session_match && status_match) == pred(all[i as int]));
            }
            if session_match && status_match {
                out.push(a.duplicate());
            }
            i = i + 1;
        }
        assert(all.take(i as int) =~= all);
        out
    }

    /// Records a mutating command proposed for a conversation, as `Pending`.
    /// A blank command is refused, then an unknown conversation.
    pub fn create_pending_action(
        &mut self,
        conversation_id: &str,
        session_id: Option<&str>,
        command: &str,
        reason: &str,
    ) -> (r: AppResult<OpsAgentPendingAction>)
        ensures
            r is Ok <==> !is_blank(command@) && old(self).has_conversation(conversation_id@),
            is_blank(command@) ==> (r matches Err(e) && e is Validation),
            !is_blank(command@) && !old(self).has_conversation(conversation_id@) ==> (r matches Err(
                e,
            ) && e is NotFound),
            r is Err ==> final(self).actions() == old(self).actions(),
            r matches Ok(a) ==> {
                &&& final(self).actions() == old(self).actions().push(a)
                &&& a.conversation_id@ == conversation_id@
                &&& opt_view(a.session_id) == opt_str_view(session_id)
                &&& a.command@ == trim(command@)
                &&& a.reason@ == trim(reason@)
                &&& a.status == OpsAgentActionStatus::Pending
                &&& a.resolved_at is None
                &&& a.execution_output is None
                &&& a.execution_exit_code is None
                &&& forall|i: int|
                    0 <= i < old(self).actions().len() ==> (#[trigger] old(self).actions()[i]).id@
                        != a.id@
            },
            final(self).conversations() == old(self).conversations(),
            final(self).active_id() == old(self).active_id(),
    {
        if is_blank_str(command) {
            return Err(AppError::Validation(copy_str("tool command cannot be empty")));
        }
        if self.find_conversation(conversation_id).is_none() {
            return Err(AppError::NotFound(copy_str(conversation_id)));
        }
        let now = now_rfc3339();
        let command_chars = chars_of(command);
        let reason_chars = chars_of(reason);
        let command_trimmed = trim_chars(command_chars.as_slice());
        let reason_trimmed = trim_chars(reason_chars.as_slice());
        let taken = self.action_ids();
        let fresh = fresh_id(&taken);
        assert forall|i: int| 0 <= i < self.actions().len() implies (#[trigger] self.actions()[i]).id@ != fresh@ by {
            assert(taken@[i]@ == self.actions()[i].id@);
        }
        let action = OpsAgentPendingAction {
            id: fresh,
            conversation_id: copy_str(conversation_id),
            session_id: copy_opt_str(session_id),
            command: string_of(command_trimmed.as_slice()),
            reason: string_of(reason_trimmed.as_slice()),
            status: OpsAgentActionStatus::Pending,
            created_at: now.clone(),
            updated_at: now,
            resolved_at: None,
            execution_output: None,
            execution_exit_code: None,
        };
        let copy = action.duplicate();
        self.data.pending_actions.push(action);
        Ok(copy)
    }

    /// The first pending action with id `action_id`.
    pub fn get_pending_action(&self, action_id: &str) -> (r: AppResult<OpsAgentPendingAction>)
        ensures
            r is Ok <==> self.has_action(action_id@),
            r matches Err(e) ==> e is NotFound,
            r matches Ok(a) ==> a == self.action(action_id@),
    {
        match self.find_action(action_id) {
            Some(i) => Ok(self.data.pending_actions[i].duplicate()),
            None => Err(AppError::NotFound(copy_str(action_id))),
        }
    }

    /// Resolves an action to `status` with the given outcome, stamping it and its
    /// conversation. Any status is written; callers check that the action is pending.
    fn update_action_status(
        &mut self,
        action_id: &str,
        status: OpsAgentActionStatus,
        output: Option<String>,
        exit_code: Option<i32>,
    ) -> (r: AppResult<OpsAgentPendingAction>)
        ensures
            r is Ok <==> old(self).has_action(action_id@),
            r matches Err(e) ==> e is NotFound && final(self).actions() == old(self).actions()
                && final(self).conversations() == old(self).conversations(),
            r matches Ok(a) ==> {
                let i = old(self).action_index(action_id@);
                &&& final(self).actions() == old(self).actions().update(i, a)
                &&& action_resolved(old(self).actions()[i], a, status, opt_view(output), exit_code)
                &&& conversation_stamped(
                    old(self).conversations(),
                    final(self).conversations(),
                    a.conversation_id@,
                )
            },
            only_touched(old(self).conversations(), final(self).conversations()),
            final(self).active_id() == old(self).active_id(),
    {
        let i = match self.find_action(action_id) {
            Some(i) => i,
            None => {
                return Err(AppError::NotFound(copy_str(action_id)));
            },
        };
        let now = now_rfc3339();
        let mut a = self.data.pending_actions[i].duplicate();
        a.status = status;
        a.updated_at = now.clone();
        a.resolved_at = Some(now);
        a.execution_output = output;
        a.execution_exit_code = exit_code;
        let copy = a.duplicate();
        self.data.pending_actions.set(i, a);
        match self.find_conversation(copy.conversation_id.as_str()) {
            Some(j) => {
                let mut c = self.data.conversations[j].duplicate();
                c.updated_at = now_rfc3339();
                self.data.conversations.set(j, c);
                assert(self.data.conversations@ =~= old(self).data.conversations@.update(
                    j as int,
                    self.data.conversations@[j as int],
                ));
            },
            None => {},
        }
        Ok(copy)
    }

    /// Marks a pending action rejected.
    pub fn mark_action_rejected(&mut self, action_id: &str) -> (r: AppResult<OpsAgentPendingAction>)
        ensures
            r is Ok <==> old(self).has_action(action_id@),
            r matches Err(e) ==> e is NotFound && final(self).actions() == old(self).actions()
                && final(self).conversations() == old(self).conversations(),
            r matches Ok(a) ==> {
                let i = old(self).action_index(action_id@);
                &&& final(self).actions() == old(self).actions().update(i, a)
                &&& action_resolved(
                    old(self).actions()[i],
                    a,
                    OpsAgentActionStatus::Rejected,
                    None,
                    None,
                )
                &&& conversation_stamped(
                    old(self).conversations(),
                    final(self).conversations(),
                    a.conversation_id@,
                )
            },
            only_touched(old(self).conversations(), final(self).conversations()),
            final(self).active_id() == old(self).active_id(),
    {
        self.update_action_status(action_id, OpsAgentActionStatus::Rejected, None, None)
    }

    /// Marks a pending action executed, with what the command printed and its exit code.
    pub fn mark_action_executed(&mut self, action_id: &str, output: String, exit_code: i32) -> (r:
        AppResult<OpsAgentPendingAction>)
        ensures
            r is Ok <==> old(self).has_action(action_id@),
            r matches Err(e) ==> e is NotFound && final(self).actions() == old(self).actions()
                && final(self).conversations() == old(self).conversations(),
            r matches Ok(a) ==> {
                let i = old(self).action_index(action_id@);
                &&& final(self).actions() == old(self).actions().update(i, a)
                &&& action_resolved(
                    old(self).actions()[i],
                    a,
                    OpsAgentActionStatus::Executed,
                    Some(output@),
                    Some(exit_code),
                )
                &&& conversation_stamped(
                    old(self).conversations(),
                    final(self).conversations(),
                    a.conversation_id@,
                )
            },
            only_touched(old(self).conversations(), final(self).conversations()),
            final(self).active_id() == old(self).active_id(),
    {
        self.update_action_status(
            action_id,
            OpsAgentActionStatus::Executed,
            Some(output),
            Some(exit_code),
        )
    }

    /// Marks a pending action failed, with the error text.
    pub fn mark_action_failed(&mut self, action_id: &str, output: String) -> (r: AppResult<
        OpsAgentPendingAction,
    >)
        ensures
            r is Ok <==> old(self).has_action(action_id@),
            r matches Err(e) ==> e is NotFound && final(self).actions() == old(self).actions()
                && final(self).conversations() == old(self).conversations(),
            r matches Ok(a) ==> {
                let i = old(self).action_index(action_id@);
                &&& final(self).actions() == old(self).actions().update(i, a)
                &&& action_resolved(
                    old(self).actions()[i],
                    a,
                    OpsAgentActionStatus::Failed,
                    Some(output@),
                    None,
                )
                &&& conversation_stamped(
                    old(self).conversations(),
                    final(self).conversations(),
                    a.conversation_id@,
                )
            },
            only_touched(old(self).conversations(), final(self).conversations()),
            final(self).active_id() == old(self).active_id(),
    {
        self.update_action_status(action_id, OpsAgentActionStatus::Failed, Some(output), None)
    }
}

/// Only the first user message names a conversation: a placeholder-titled conversation
/// with no user message takes its title from the first one, and once that message is in
/// its history, any later message leaves the title as it is.
pub proof fn law_title_derived_once(
    title: Seq<char>,
    messages: Seq<OpsAgentMessage>,
    first: OpsAgentMessage,
    first_content: Seq<char>,
    role: OpsAgentRole,
    content: Seq<char>,
)
    requires
        title_is_placeholder(title),
        !has_user_message(messages),
        first.role == OpsAgentRole::User,
    ensures
        title_after_append(title, messages, OpsAgentRole::User, first_content) == prompt_title(
            trim(first_content),
        ),
        title_after_append(
            title_after_append(title, messages, OpsAgentRole::User, first_content),
            messages.push(first),
            role,
            content,
        ) == title_after_append(title, messages, OpsAgentRole::User, first_content),
{
    let grown = messages.push(first);
    assert(grown[messages.len() as int].role == OpsAgentRole::User);
    assert(has_user_message(grown));
}

} // verus!
