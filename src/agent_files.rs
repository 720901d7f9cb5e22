//! What the agent store writes out and how it is put back together when read: the
//! index record, the order of conversations and the repair of the active pointer.
use vstd::prelude::*;
use crate::agent_store::{conversation_key, opt_view, repaired_active, summarizes};
use crate::agent_types::{
    OpsAgentConversation, OpsAgentConversationSummary, OpsAgentData, OpsAgentPendingAction,
};
use crate::keyed::{
    first_key_index, has_key, is_first_key, keys_unique, lemma_first_key_index, lemma_has_first_key,
};
use crate::text::{
    copy_str, lemma_text_lt_asym, lemma_text_lt_total, lemma_text_lt_trans, str_eq, str_lt, text_lt,
};
use vstd::string::StringExecFns;

verus! {

/// The index record: a summary per conversation, the active conversation and all
/// pending actions.
#[derive(Debug, Clone)]
pub struct OpsAgentConversationListData {
    pub conversations: Vec<OpsAgentConversationSummary>,
    pub active_conversation_id: Option<String>,
    pub pending_actions: Vec<OpsAgentPendingAction>,
}

impl OpsAgentConversationListData {
    /// The index record of `data`: its conversations summarised in order, its active
    /// conversation and its pending actions.
    pub fn from_data(data: &OpsAgentData) -> (r: Self)
        ensures
            r.conversations@.len() == data.conversations@.len(),
            forall|i: int|
                0 <= i < r.conversations@.len() ==> summarizes(
                    #[trigger] r.conversations@[i],
                    data.conversations@[i],
                ),
            r.active_conversation_id == data.active_conversation_id,
            r.pending_actions@ == data.pending_actions@,
    {
        let mut rows: Vec<OpsAgentConversationSummary> = Vec::new();
        let mut i: usize = 0;
        while i < data.conversations.len()
            invariant
                i <= data.conversations@.len(),
                rows@.len() == i,
                forall|j: int|
                    0 <= j < i ==> summarizes(#[trigger] rows@[j], data.conversations@[j]),
            decreases data.conversations@.len() - i,
        {
            rows.push(OpsAgentConversationSummary::from_conversation(&data.conversations[i]));
            i = i + 1;
        }
        let mut actions: Vec<OpsAgentPendingAction> = Vec::new();
        let mut k: usize = 0;
        while k < data.pending_actions.len()
            invariant
                k <= data.pending_actions@.len(),
                actions@ == data.pending_actions@.take(k as int),
            decreases data.pending_actions@.len() - k,
        {
            actions.push(data.pending_actions[k].duplicate());
            k = k + 1;
            assert(actions@ =~= data.pending_actions@.take(k as int));
        }
        assert(data.pending_actions@.take(k as int) =~= data.pending_actions@);
        OpsAgentConversationListData {
            conversations: rows,
            active_conversation_id: crate::agent_types::dup_opt(&data.active_conversation_id),
            pending_actions: actions,
        }
    }
}

/// The name of a conversation's file.
pub fn conversation_file_name(conversation_id: &str) -> (r: String)
    ensures
        r@ == conversation_id@ + ".json"@,
{
    let mut name = copy_str(conversation_id);
    name.append(".json");
    name
}

/// Conversations ordered by creation time, oldest first.
pub open spec fn oldest_first(s: Seq<OpsAgentConversation>) -> bool {
    forall|i: int, j: int|
        0 <= i < j < s.len() ==> !text_lt(#[trigger] s[j].created_at@, #[trigger] s[i].created_at@)
}

/// Conversations created at time `t`.
pub open spec fn created_at_time(t: Seq<char>) -> spec_fn(OpsAgentConversation) -> bool {
    |c: OpsAgentConversation| c.created_at@ == t
}

/// `new` keeps the relative order of conversations created at the same time in `old`.
pub open spec fn same_order_per_time(old: Seq<OpsAgentConversation>, new: Seq<OpsAgentConversation>) -> bool {
    forall|t: Seq<char>| #[trigger] new.filter(created_at_time(t)) == old.filter(created_at_time(t))
}

proof fn lemma_filter_none(s: Seq<OpsAgentConversation>, p: spec_fn(OpsAgentConversation) -> bool)
    requires
        forall|i: int| 0 <= i < s.len() ==> !p(#[trigger] s[i]),
    ensures
        s.filter(p) == Seq::<OpsAgentConversation>::empty(),
    decreases s.len(),
{
    reveal(Seq::filter);
    if s.len() > 0 {
        lemma_filter_none(s.drop_last(), p);
        assert(!p(s[s.len() - 1]));
    }
}

proof fn lemma_text_lt_irrefl(a: Seq<char>)
    ensures
        !text_lt(a, a),
{
    if text_lt(a, a) {
        lemma_text_lt_asym(a, a);
    }
}

/// Sorts conversations by creation time, oldest first, keeping the order of equal times.
pub fn sort_oldest_first(rows: Vec<OpsAgentConversation>) -> (r: Vec<OpsAgentConversation>)
    ensures
        r@.to_multiset() == rows@.to_multiset(),
        oldest_first(r@),
        same_order_per_time(rows@, r@),
{
    let ghost orig = rows@;
    let mut source = rows;
    let mut out: Vec<OpsAgentConversation> = Vec::new();
    let mut n: usize = 0;
    let total = source.len();
    assert(orig.skip(0) =~= orig);
    assert(orig.take(0) =~= Seq::<OpsAgentConversation>::empty());
    while source.len() > 0
        invariant
            n + source@.len() == total,
            total == orig.len(),
            source@ == orig.skip(n as int),
            out@.to_multiset() == orig.take(n as int).to_multiset(),
            oldest_first(out@),
            same_order_per_time(orig.take(n as int), out@),
        decreases source@.len(),
    {
        let x = source.remove(0);
        assert(orig.skip(n + 1) =~= orig.skip(n as int).remove(0));
        assert(orig.take(n + 1) =~= orig.take(n as int).push(x));
        let mut pos: usize = 0;
        while pos < out.len() && !str_lt(x.created_at.as_str(), out[pos].created_at.as_str())
            invariant
                pos <= out@.len(),
                forall|j: int| 0 <= j < pos ==> !text_lt(x.created_at@, #[trigger] out@[j].created_at@),
            decreases out@.len() - pos,
        {
            pos = pos + 1;
        }
        let ghost old_out = out@;
        let ghost gx = x;
        out.insert(pos, x);
        proof {
            vstd::seq_lib::to_multiset_insert(old_out, pos as int, gx);
            vstd::seq_lib::to_multiset_build(orig.take(n as int), gx);
            let key = gx.created_at@;
            assert forall|t: Seq<char>| #[trigger] out@.filter(created_at_time(t)) == orig.take(n + 1).filter(
                created_at_time(t),
            ) by {
                let p = created_at_time(t);
                let head = old_out.take(pos as int);
                let tail = old_out.skip(pos as int);
                assert(old_out =~= head + tail);
                assert(out@ =~= head + seq![gx] + tail);
                Seq::filter_distributes_over_add(head, tail, p);
                Seq::filter_distributes_over_add(head + seq![gx], tail, p);
                Seq::filter_distributes_over_add(head, seq![gx], p);
                reveal(Seq::filter);
                assert(seq![gx].drop_last() =~= Seq::<OpsAgentConversation>::empty());
                assert(orig.take(n + 1).drop_last() =~= orig.take(n as int));
                assert(old_out.filter(p) == orig.take(n as int).filter(p));
                if t == key {
                    assert forall|j: int| 0 <= j < tail.len() implies !p(#[trigger] tail[j]) by {
                        let y = tail[j].created_at@;
                        let q = old_out[pos as int].created_at@;
                        assert(tail[j] == old_out[pos + j]);
                        assert(text_lt(key, q));
                        if j > 0 {
                            assert(!text_lt(y, q));
                            lemma_text_lt_total(y, q);
                            if y != q {
                                lemma_text_lt_trans(key, q, y);
                            }
                        }
                        lemma_text_lt_irrefl(key);
                    }
                    lemma_filter_none(tail, p);
                    assert(out@.filter(p) =~= old_out.filter(p).push(gx));
                } else {
                    assert(!p(gx));
                    assert(Seq::<OpsAgentConversation>::empty().filter(p) =~= Seq::<OpsAgentConversation>::empty());
                    assert(seq![gx].filter(p) == seq![gx].drop_last().filter(p));
                    assert(seq![gx].filter(p) =~= Seq::<OpsAgentConversation>::empty());
                    assert(orig.take(n + 1).last() == gx);
                    assert(head.filter(p) + Seq::<OpsAgentConversation>::empty() =~= head.filter(p));
                    assert(out@.filter(p) =~= old_out.filter(p));
                }
            }
            assert forall|a: int, b: int| 0 <= a < b < out@.len() implies !text_lt(
                #[trigger] out@[b].created_at@,
                #[trigger] out@[a].created_at@,
            ) by {
                if a < pos && b < pos {
                    assert(out@[a] == old_out[a] && out@[b] == old_out[b]);
                } else if a < pos && b == pos {
                    assert(out@[a] == old_out[a]);
                } else if a < pos && b > pos {
                    assert(out@[a] == old_out[a] && out@[b] == old_out[b - 1]);
                } else if a == pos {
                    let y = old_out[b - 1].created_at@;
                    let p = old_out[pos as int].created_at@;
                    assert(out@[b] == old_out[b - 1]);
                    assert(text_lt(key, p));
                    if text_lt(y, key) {
                        if b - 1 == pos {
                            lemma_text_lt_asym(key, p);
                        } else {
                            assert(!text_lt(old_out[b - 1].created_at@, old_out[pos as int].created_at@));
                            lemma_text_lt_trans(y, key, p);
                        }
                    }
                } else {
                    assert(out@[a] == old_out[a - 1] && out@[b] == old_out[b - 1]);
                }
            }
        }
        n = n + 1;
    }
    assert(orig.take(n as int) =~= orig);
    out
}

/// Repairs loaded data: conversations by creation time, oldest first, and the active
/// conversation reset to the first one when it names none of them.
pub fn normalize_data(data: &mut OpsAgentData)
    ensures
        final(data).conversations@.to_multiset() == old(data).conversations@.to_multiset(),
        oldest_first(final(data).conversations@),
        same_order_per_time(old(data).conversations@, final(data).conversations@),
        opt_view(final(data).active_conversation_id) == repaired_active(
            opt_view(old(data).active_conversation_id),
            final(data).conversations@,
        ),
        final(data).pending_actions == old(data).pending_actions,
{
    let mut taken: Vec<OpsAgentConversation> = Vec::new();
    std::mem::swap(&mut taken, &mut data.conversations);
    data.conversations = sort_oldest_first(taken);
    let valid = match &data.active_conversation_id {
        Some(id) => {
            let mut found = false;
            let mut i: usize = 0;
            while i < data.conversations.len()
                invariant
                    i <= data.conversations@.len(),
                    found == has_key(data.conversations@.take(i as int), conversation_key(), id@),
                decreases data.conversations@.len() - i,
            {
                proof {
                    let t = data.conversations@.take(i + 1);
                    assert(t.drop_last() =~= data.conversations@.take(i as int));
                    if has_key(t, conversation_key(), id@) && !has_key(
                        data.conversations@.take(i as int),
                        conversation_key(),
                        id@,
                    ) {
                        let j = choose|j: int| 0 <= j < t.len() && (conversation_key())(#[trigger] t[j]) == id@;
                        assert(j == i);
                    }
                    if has_key(data.conversations@.take(i as int), conversation_key(), id@) {
                        let j = choose|j: int|
                            0 <= j < i && (conversation_key())(
                                #[trigger] data.conversations@.take(i as int)[j],
                            ) == id@;
                        assert(t[j] == data.conversations@.take(i as int)[j]);
                    }
                    assert((conversation_key())(t[i as int]) == data.conversations@[i as int].id@);
                }
                if str_eq(data.conversations[i].id.as_str(), id.as_str()) {
                    found = true;
                }
                i = i + 1;
            }
            assert(data.conversations@.take(i as int) =~= data.conversations@);
            found
        },
        None => false,
    };
    if !valid {
        data.active_conversation_id = if data.conversations.len() > 0 {
            Some(data.conversations[0].id.clone())
        } else {
            None
        };
    }
}

/// Takes, for each id in turn, the first conversation left in `pool` with that id:
/// the conversations taken, in order, and what is left of the pool.
pub open spec fn take_preferred(pool: Seq<OpsAgentConversation>, ids: Seq<Seq<char>>) -> (Seq<
    OpsAgentConversation,
>, Seq<OpsAgentConversation>)
    decreases ids.len(),
{
    if ids.len() == 0 {
        (Seq::empty(), pool)
    } else {
        let (taken, rest) = take_preferred(pool, ids.drop_last());
        if has_key(rest, conversation_key(), ids.last()) {
            let i = first_key_index(rest, conversation_key(), ids.last());
            (taken.push(rest[i]), rest.remove(i))
        } else {
            (taken, rest)
        }
    }
}

/// The ids of some summaries.
pub open spec fn summary_ids(rows: Seq<OpsAgentConversationSummary>) -> Seq<Seq<char>> {
    rows.map_values(|s: OpsAgentConversationSummary| s.id@)
}

/// Orders loaded conversations as the index lists them: the listed ones first, in the
/// index's order, then the ones it does not list, oldest first. With an empty index the
/// conversations stay as they are.
pub fn order_conversations_by_index(
    files: Vec<OpsAgentConversation>,
    preferred: &[OpsAgentConversationSummary],
) -> (r: Vec<OpsAgentConversation>)
    ensures
        preferred@.len() == 0 ==> r@ == files@,
        preferred@.len() > 0 ==> ({
            let (taken, rest) = take_preferred(files@, summary_ids(preferred@));
            &&& r@.take(taken.len() as int) == taken
            &&& r@.len() == taken.len() + rest.len()
            &&& r@.skip(taken.len() as int).to_multiset() == rest.to_multiset()
            &&& oldest_first(r@.skip(taken.len() as int))
        }),
{
    if preferred.len() == 0 {
        return files;
    }
    let ghost ids = summary_ids(preferred@);
    let mut pool = files;
    let mut ordered: Vec<OpsAgentConversation> = Vec::new();
    let mut k: usize = 0;
    assert(ids.take(0) =~= Seq::<Seq<char>>::empty());
    while k < preferred.len()
        invariant
            k <= preferred@.len(),
            ids == summary_ids(preferred@),
            take_preferred(files@, ids.take(k as int)) == (ordered@, pool@),
        decreases preferred@.len() - k,
    {
        let ghost prev = ids.take(k as int);
        assert(ids.take(k + 1).drop_last() =~= prev);
        assert(ids.take(k + 1).last() == preferred@[k as int].id@);
        let id = preferred[k].id.as_str();
        let mut i: usize = 0;
        while i < pool.len() && !str_eq(pool[i].id.as_str(), id)
            invariant
                i <= pool@.len(),
                forall|j: int| 0 <= j < i ==> (conversation_key())(#[trigger] pool@[j]) != id@,
            decreases pool@.len() - i,
        {
            i = i + 1;
        }
        if i < pool.len() {
            proof {
                assert(is_first_key(pool@, conversation_key(), id@, i as int));
                lemma_first_key_index(pool@, conversation_key(), id@, i as int);
            }
            let c = pool.remove(i);
            ordered.push(c);
        } else {
            assert(!has_key(pool@, conversation_key(), id@));
        }
        k = k + 1;
    }
    assert(ids.take(k as int) =~= ids);
    let ghost taken = ordered@;
    let ghost rest = pool@;
    let remaining = sort_oldest_first(pool);
    let ghost sorted = remaining@;
    let mut out = ordered;
    let mut tail = remaining;
    out.append(&mut tail);
    assert(out@.take(taken.len() as int) =~= taken);
    assert(out@.skip(taken.len() as int) =~= sorted);
    proof {
        vstd::seq_lib::to_multiset_len(sorted);
        vstd::seq_lib::to_multiset_len(rest);
    }
    out
}

proof fn lemma_take_all(
    convs: Seq<OpsAgentConversation>,
    files: Seq<OpsAgentConversation>,
    ids: Seq<Seq<char>>,
    k: int,
)
    requires
        keys_unique(convs, conversation_key()),
        files.to_multiset() == convs.to_multiset(),
        ids.len() == convs.len(),
        forall|i: int| 0 <= i < convs.len() ==> #[trigger] ids[i] == convs[i].id@,
        0 <= k <= convs.len(),
    ensures
        take_preferred(files, ids.take(k)).0 == convs.take(k),
        take_preferred(files, ids.take(k)).1.to_multiset() == convs.skip(k).to_multiset(),
    decreases k,
{
    if k == 0 {
        assert(ids.take(0) =~= Seq::<Seq<char>>::empty());
        assert(convs.take(0) =~= Seq::<OpsAgentConversation>::empty());
        assert(convs.skip(0) =~= convs);
    } else {
        lemma_take_all(convs, files, ids, k - 1);
        let prev = ids.take(k - 1);
        assert(ids.take(k).drop_last() =~= prev);
        let (taken, rest) = take_preferred(files, prev);
        let c = convs[k - 1];
        let tail = convs.skip(k);
        assert(convs.skip(k - 1) =~= tail.insert(0, c));
        vstd::seq_lib::to_multiset_insert(tail, 0, c);
        vstd::seq_lib::to_multiset_contains(rest, c);
        assert(rest.contains(c));
        let w = choose|w: int| 0 <= w < rest.len() && #[trigger] rest[w] == c;
        assert((conversation_key())(rest[w]) == ids.take(k).last());
        assert(has_key(rest, conversation_key(), ids.take(k).last()));
        lemma_has_first_key(rest, conversation_key(), ids.take(k).last());
        let i = first_key_index(rest, conversation_key(), ids.take(k).last());
        let e = rest[i];
        vstd::seq_lib::to_multiset_contains(rest, e);
        vstd::seq_lib::to_multiset_contains(convs.skip(k - 1), e);
        assert(convs.skip(k - 1).contains(e));
        let sk = convs.skip(k - 1);
        let m = choose|m: int| 0 <= m < sk.len() && #[trigger] sk[m] == e;
        assert(convs[k - 1 + m] == e);
        if m != 0 {
            assert((conversation_key())(convs[k - 1 + m]) != (conversation_key())(convs[k - 1]));
        }
        assert(e == c);
        vstd::seq_lib::to_multiset_remove(rest, i);
        assert(taken.push(e) =~= convs.take(k));
    }
}

/// Reloading reproduces what was written: when the loaded conversations are those of a
/// store with distinct ids (in any order) and the index lists them in the store's order,
/// ordering by the index gives back the store's conversations in the store's order, and
/// nothing is left over.
pub proof fn law_reload_reproduces_order(
    convs: Seq<OpsAgentConversation>,
    files: Seq<OpsAgentConversation>,
    index: Seq<OpsAgentConversationSummary>,
)
    requires
        keys_unique(convs, conversation_key()),
        files.to_multiset() == convs.to_multiset(),
        index.len() == convs.len(),
        forall|i: int| 0 <= i < index.len() ==> summarizes(#[trigger] index[i], convs[i]),
    ensures
        take_preferred(files, summary_ids(index)).0 == convs,
        take_preferred(files, summary_ids(index)).1.len() == 0,
{
    let ids = summary_ids(index);
    assert forall|i: int| 0 <= i < convs.len() implies #[trigger] ids[i] == convs[i].id@ by {
        assert(summarizes(index[i], convs[i]));
    }
    lemma_take_all(convs, files, ids, convs.len() as int);
    assert(ids.take(convs.len() as int) =~= ids);
    assert(convs.take(convs.len() as int) =~= convs);
    assert(convs.skip(convs.len() as int) =~= Seq::<OpsAgentConversation>::empty());
    vstd::seq_lib::to_multiset_len(take_preferred(files, ids).1);
    vstd::seq_lib::to_multiset_len(convs.skip(convs.len() as int));
}

/// Where the store is loaded from at startup.
#[derive(Debug, Clone, Copy, PartialEq, Eq, Structural)]
pub enum LoadSource {
    /// The index file, with the conversation files it lists and any it does not.
    Index,
    /// The conversation files alone, with no active conversation and no actions.
    LooseFiles,
    /// The legacy single file (or nothing), migrated once.
    Legacy,
}

/// Chooses what to load: the index when it exists, else the conversation files when
/// there are any, else the legacy file.
pub fn load_source(index_exists: bool, conversation_files: usize) -> (r: LoadSource)
    ensures
        index_exists ==> r == LoadSource::Index,
        !index_exists && conversation_files > 0 ==> r == LoadSource::LooseFiles,
        !index_exists && conversation_files == 0 ==> r == LoadSource::Legacy,
{
    if index_exists {
        LoadSource::Index
    } else if conversation_files > 0 {
        LoadSource::LooseFiles
    } else {
        LoadSource::Legacy
    }
}

} // verus!
