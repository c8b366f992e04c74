//! Conversation memory: the global history, a per-character index of it,
//! and compaction of old messages into a summary.

use vstd::prelude::*;
use std::collections::HashMap;
use crate::message::{Message, MessageView, Role, is_random_uuid, random_uuid, uuid_string, uuid_text};
use crate::sliding_window::views;
use crate::json::{
    entry_views, json_bool, json_boolean, json_count, json_object, json_object_of, json_str, json_string, json_usize,
};
use crate::store::{estimate_tokens, token_estimate, SummaryRecord};

verus! {

broadcast use vstd::std_specs::hash::group_hash_axioms;

/// Counts before and after a compaction.
#[derive(Debug, Clone, Copy)]
pub struct CompactStats {
    pub before_messages: usize,
    pub after_messages: usize,
    pub before_tokens: usize,
    pub after_tokens: usize,
}

/// Stored conversation history, globally and per character.
#[derive(Debug)]
pub struct ConversationMemory {
    /// The current context view of the whole conversation.
    pub global_history: Vec<Message>,
    /// Messages involving each character, keyed by the character's id bits.
    pub character_history: HashMap<u128, Vec<Message>>,
    /// Stable id of the session in persistent storage.
    pub session_id: String,
}

/// The message sequences of a per-character index.
pub open spec fn index_view(m: Map<u128, Vec<Message>>) -> Map<u128, Seq<MessageView>> {
    m.map_values(|v: Vec<Message>| views(v@))
}

/// The index with `msg` appended to the entry of `k`.
pub open spec fn append_to(m: Map<u128, Seq<MessageView>>, k: u128, msg: MessageView) -> Map<
    u128,
    Seq<MessageView>,
> {
    m.insert(
        k,
        if m.contains_key(k) {
            m[k]
        } else {
            Seq::empty()
        }.push(msg),
    )
}

/// One step of `rotate_left(1)` on a byte.
pub open spec fn rotl1(x: u8) -> u8 {
    ((x as int * 2) % 256 + x as int / 128) as u8
}

/// Folds one name byte into a scope-id byte.
pub open spec fn mix_byte(acc: u8, b: u8) -> u8 {
    rotl1(((acc as int + b as int) % 256) as u8)
}

/// The 16 bytes folded from the bytes of a name: byte `i` of the name is
/// added (wrapping) into slot `i % 16`, which is then rotated left by one.
pub open spec fn scope_bytes(bs: Seq<u8>) -> Seq<u8>
    decreases bs.len(),
{
    if bs.len() == 0 {
        Seq::new(16, |i: int| 0u8)
    } else {
        let prev = scope_bytes(bs.drop_last());
        let i = (bs.len() - 1) % 16;
        prev.update(i, mix_byte(prev[i], bs.last()))
    }
}

/// Big-endian value of a byte sequence.
pub open spec fn be_value(b: Seq<u8>) -> nat
    decreases b.len(),
{
    if b.len() == 0 {
        0
    } else {
        be_value(b.drop_last()) * 256 + b.last() as nat
    }
}

/// The stable id of a character's scope, derived from its name.
pub open spec fn scope_id(name: Seq<char>) -> u128 {
    be_value(scope_bytes(vstd::utf8::encode_utf8(name))) as u128
}

/// Whether a message is indexed under its author's scope.
pub open spec fn scoped(m: MessageView) -> bool {
    m.role != Role::System && m.character_name is Some
}

/// The per-character index rebuilt from a history: every non-system message
/// with an author, under the scope id of the author's name, in order.
pub open spec fn scoped_index(ms: Seq<MessageView>) -> Map<u128, Seq<MessageView>>
    decreases ms.len(),
{
    if ms.len() == 0 {
        Map::empty()
    } else {
        let prev = scoped_index(ms.drop_last());
        let m = ms.last();
        if scoped(m) {
            append_to(prev, scope_id(m.character_name->0), m)
        } else {
            prev
        }
    }
}

/// Total estimated tokens of a sequence of messages.
pub open spec fn token_total(ms: Seq<MessageView>) -> nat
    decreases ms.len(),
{
    if ms.len() == 0 {
        0
    } else {
        token_total(ms.drop_last()) + token_estimate(ms.last().content)
    }
}

/// The text that opens a compaction summary.
pub open spec fn summary_content(summary_text: Seq<char>) -> Seq<char> {
    "Conversation summary for compacted older context:\n"@ + summary_text
}

/// The bits of `uuid::Uuid::from_bytes(bytes)`, read with `as_u128`
/// (which reads the 16 bytes big-endian).
#[verifier::external_body]
fn uuid_bits_from_bytes(bytes: &Vec<u8>) -> (id: u128)
    requires
        bytes@.len() == 16,
    ensures
        id == be_value(bytes@) as u128,
{
    let mut a = [0u8; 16];
    a.copy_from_slice(bytes.as_slice());
    uuid::Uuid::from_bytes(a).as_u128()
}

/// A fresh random session id: a random UUID in its hyphenated form.
fn new_session_id() -> (s: String)
    ensures
        exists|bits: u128| is_random_uuid(bits) && s@ == uuid_text(bits),
{
    let bits = random_uuid();
    uuid_string(bits)
}

/// Rotates a byte left by one bit.
fn rotate_left_one(x: u8) -> (r: u8)
    ensures
        r == rotl1(x),
{
    let doubled: u16 = (x as u16) * 2;
    let low: u16 = doubled % 256;
    (low + (x as u16) / 128) as u8
}

/// The stable scope id of a character name.
pub fn stable_character_scope_id(name: &str) -> (id: u128)
    ensures
        id == scope_id(name@),
{
    let bs = name.as_bytes();
    let ghost input = bs@;
    let mut acc: Vec<u8> = vec![0u8, 0u8, 0u8, 0u8, 0u8, 0u8, 0u8, 0u8, 0u8, 0u8, 0u8, 0u8, 0u8, 0u8, 0u8, 0u8];
    assert(acc@ =~= scope_bytes(input.take(0)));
    let mut idx: usize = 0;
    while idx < bs.len()
        invariant
            idx <= input.len(),
            input == bs@,
            acc@ == scope_bytes(input.take(idx as int)),
        decreases input.len() - idx,
    {
        proof {
            assert(input.take(idx + 1).drop_last() =~= input.take(idx as int));
            lemma_scope_bytes_len(input.take(idx as int));
        }
        let slot = idx % 16;
        let cur = acc[slot];
        let sum: u16 = (cur as u16 + bs[idx] as u16) % 256;
        let mixed = rotate_left_one(sum as u8);
        acc.set(slot, mixed);
        idx = idx + 1;
    }
    assert(input.take(input.len() as int) =~= input);
    proof {
        lemma_scope_bytes_len(input);
    }
    uuid_bits_from_bytes(&acc)
}

pub proof fn lemma_scope_bytes_len(bs: Seq<u8>)
    ensures
        scope_bytes(bs).len() == 16,
    decreases bs.len(),
{
    if bs.len() > 0 {
        lemma_scope_bytes_len(bs.drop_last());
    }
}

impl ConversationMemory {
    /// The whole history, as message views.
    pub open spec fn history_view(&self) -> Seq<MessageView> {
        views(self.global_history@)
    }

    /// The per-character index, as message views.
    pub open spec fn characters_view(&self) -> Map<u128, Seq<MessageView>> {
        index_view(self.character_history@)
    }

    /// An empty memory with a fresh random session id.
    pub fn new() -> (m: Self)
        ensures
            m.history_view().len() == 0,
            m.characters_view() == Map::<u128, Seq<MessageView>>::empty(),
            exists|bits: u128| is_random_uuid(bits) && m.session_id@ == uuid_text(bits),
    {
        let m = ConversationMemory {
            global_history: Vec::new(),
            character_history: HashMap::new(),
            session_id: new_session_id(),
        };
        assert(m.characters_view() =~= Map::<u128, Seq<MessageView>>::empty());
        m
    }

    /// An empty memory with the given session id.
    pub fn with_session(session_id: String) -> (m: Self)
        ensures
            m.history_view().len() == 0,
            m.characters_view() == Map::<u128, Seq<MessageView>>::empty(),
            m.session_id == session_id,
    {
        let m = ConversationMemory {
            global_history: Vec::new(),
            character_history: HashMap::new(),
            session_id,
        };
        assert(m.characters_view() =~= Map::<u128, Seq<MessageView>>::empty());
        m
    }

    /// Appends `message` to the character's entry of the index.
    fn index_push(&mut self, id: u128, message: Message)
        ensures
            final(self).characters_view() == append_to(old(self).characters_view(), id, message@),
            final(self).global_history@ == old(self).global_history@,
            final(self).session_id == old(self).session_id,
    {
        let ghost before = self.characters_view();
        let ghost m0 = self.character_history@;
        let mut entry = match self.character_history.remove(&id) {
            Some(v) => v,
            None => Vec::new(),
        };
        let ghost m1 = self.character_history@;
        assert(m1 == m0.remove(id));
        assert(views(entry@) == if before.contains_key(id) {
            before[id]
        } else {
            Seq::<MessageView>::empty()
        }) by {
            if !m0.contains_key(id) {
                assert(views(entry@) =~= Seq::<MessageView>::empty());
            }
        }
        proof {
            crate::sliding_window::lemma_views_push(entry@, message);
        }
        entry.push(message);
        self.character_history.insert(id, entry);
        proof {
            let m2 = self.character_history@;
            assert(m2 == m1.insert(id, entry));
            let target = append_to(before, id, message@);
            assert forall|k: u128| #[trigger] self.characters_view().contains_key(k)
                <==> target.contains_key(k) by {}
            assert forall|k: u128| self.characters_view().contains_key(k) implies
                #[trigger] self.characters_view()[k] == target[k] by {
                if k != id {
                    assert(m2[k] == m0[k]);
                }
            }
            assert(self.characters_view() =~= target);
        }
    }

    /// Adds a message to the history and, when a character id is given, to
    /// that character's entry.
    pub fn add_message(&mut self, message: Message, character_id: Option<u128>)
        ensures
            final(self).history_view() == old(self).history_view().push(message@),
            final(self).characters_view() == match character_id {
                Some(k) => append_to(old(self).characters_view(), k, message@),
                None => old(self).characters_view(),
            },
            final(self).session_id == old(self).session_id,
    {
        if let Some(id) = character_id {
            let copy = message.clone();
            self.index_push(id, copy);
        }
        proof {
            crate::sliding_window::lemma_views_push(self.global_history@, message);
        }
        self.global_history.push(message);
    }

    /// Adds a message once persisting it has been attempted: with the store's
    /// error, the memory is left unchanged and the error is returned.
    pub fn add_message_result(
        &mut self,
        message: Message,
        character_id: Option<u128>,
        persisted: Result<i64, crate::error::AgentError>,
    ) -> (r: Result<(), crate::error::AgentError>)
        ensures
            r is Ok <==> persisted is Ok,
            r is Ok ==> final(self).history_view() == old(self).history_view().push(message@),
            r is Ok ==> final(self).characters_view() == match character_id {
                Some(k) => append_to(old(self).characters_view(), k, message@),
                None => old(self).characters_view(),
            },
            r is Err ==> final(self).history_view() == old(self).history_view()
                && final(self).characters_view() == old(self).characters_view(),
            final(self).session_id == old(self).session_id,
    {
        match persisted {
            Err(e) => Err(e),
            Ok(_) => {
                self.add_message(message, character_id);
                Ok(())
            },
        }
    }

    /// The whole history.
    pub fn history(&self) -> (h: &[Message])
        ensures
            views(h@) == self.history_view(),
    {
        self.global_history.as_slice()
    }

    /// The entry of a character, empty when it has none.
    pub fn character_messages(&self, character_id: u128) -> (h: &[Message])
        ensures
            views(h@) == if self.characters_view().contains_key(character_id) {
                self.characters_view()[character_id]
            } else {
                Seq::empty()
            },
    {
        match self.character_history.get(&character_id) {
            Some(v) => v.as_slice(),
            None => {
                let empty: &[Message] = &[];
                assert(views(empty@) =~= Seq::<MessageView>::empty());
                empty
            },
        }
    }

    /// The last `n` messages (all of them when there are fewer).
    pub fn last_n(&self, n: usize) -> (h: &[Message])
        ensures
            views(h@) == recent(self.history_view(), n as nat),
    {
        let len = self.global_history.len();
        if n >= len {
            self.global_history.as_slice()
        } else {
            let (_, tail) = self.global_history.as_slice().split_at(len - n);
            assert(views(tail@) =~= self.history_view().skip(len - n));
            tail
        }
    }

    /// Forgets all messages.
    pub fn clear(&mut self)
        ensures
            final(self).history_view().len() == 0,
            final(self).characters_view() == Map::<u128, Seq<MessageView>>::empty(),
            final(self).session_id == old(self).session_id,
    {
        self.global_history.clear();
        self.character_history.clear();
        assert(self.characters_view() =~= Map::<u128, Seq<MessageView>>::empty());
    }

    /// Number of messages in the history.
    pub fn len(&self) -> (n: usize)
        ensures
            n == self.history_view().len(),
    {
        self.global_history.len()
    }

    pub fn is_empty(&self) -> (b: bool)
        ensures
            b == (self.history_view().len() == 0),
    {
        self.global_history.len() == 0
    }

    /// Estimated tokens of the whole history.
    pub fn estimated_tokens(&self) -> (n: usize)
        requires
            token_total(self.history_view()) <= usize::MAX,
        ensures
            n == token_total(self.history_view()),
    {
        let ghost hs = self.history_view();
        let mut total: usize = 0;
        let mut i: usize = 0;
        while i < self.global_history.len()
            invariant
                i <= hs.len(),
                hs == self.history_view(),
                token_total(hs) <= usize::MAX,
                total == token_total(hs.take(i as int)),
            decreases hs.len() - i,
        {
            proof {
                assert(hs.take(i + 1).drop_last() =~= hs.take(i as int));
                lemma_token_total_prefix(hs, i + 1);
            }
            total = total + estimate_tokens(self.global_history[i].content.as_str());
            i = i + 1;
        }
        assert(hs.take(hs.len() as int) =~= hs);
        total
    }

    /// Rebuilds the per-character index from the history.
    fn rebuild_character_history(&mut self)
        ensures
            final(self).characters_view() == scoped_index(final(self).history_view()),
            final(self).global_history@ == old(self).global_history@,
            final(self).session_id == old(self).session_id,
    {
        self.character_history.clear();
        let ghost hs = self.history_view();
        assert(self.characters_view() =~= scoped_index(hs.take(0)));
        let mut i: usize = 0;
        while i < self.global_history.len()
            invariant
                i <= hs.len(),
                hs == self.history_view(),
                self.global_history@ == old(self).global_history@,
                self.session_id == old(self).session_id,
                self.characters_view() == scoped_index(hs.take(i as int)),
            decreases hs.len() - i,
        {
            proof {
                assert(hs.take(i + 1).drop_last() =~= hs.take(i as int));
                assert(hs.take(i + 1).last() == self.global_history@[i as int]@);
            }
            let is_system = self.global_history[i].role == Role::System;
            if !is_system {
                match &self.global_history[i].character_name {
                    Some(name) => {
                        let key = stable_character_scope_id(name.as_str());
                        let copy = self.global_history[i].clone();
                        self.index_push(key, copy);
                    },
                    None => {},
                }
            }
            i = i + 1;
        }
        assert(hs.take(hs.len() as int) =~= hs);
    }

    /// Replaces all but the `keep_recent_messages` most recent messages by a
    /// summary system message and rebuilds the per-character index from the
    /// new history. Returns the counts, and the summary record to persist
    /// when a compaction took place.
    pub fn compact_with_summary(
        &mut self,
        summary_text: String,
        summary_json: serde_json::Value,
        keep_recent_messages: usize,
        model: String,
    ) -> (res: (CompactStats, Option<SummaryRecord>))
        requires
            token_total(old(self).history_view()) + token_estimate(summary_content(summary_text@))
                <= usize::MAX,
        ensures
            ({
                let before = old(self).history_view();
                let (stats, record) = res;
                &&& stats.before_messages == before.len()
                &&& stats.before_tokens == token_total(before)
                &&& final(self).session_id == old(self).session_id
                &&& if before.len() <= keep_recent_messages {
                    &&& final(self).history_view() == before
                    &&& final(self).characters_view() == old(self).characters_view()
                    &&& stats.after_messages == before.len()
                    &&& stats.after_tokens == token_total(before)
                    &&& record is None
                } else {
                    let compacted = before.len() - keep_recent_messages;
                    let summary = final(self).history_view()[0];
                    &&& final(self).history_view().len() == keep_recent_messages + 1
                    &&& final(self).history_view().drop_first() == before.skip(compacted)
                    &&& summary.role == Role::System
                    &&& summary.content == summary_content(summary_text@)
                    &&& summary.character_name is None
                    &&& summary.metadata == Some(compaction_metadata(summary_json, compacted as usize))
                    &&& summary.tool_calls.len() == 0
                    &&& summary.tool_call_id is None
                    &&& summary.reasoning_content is None
                    &&& final(self).characters_view() == scoped_index(final(self).history_view())
                    &&& stats.after_messages == keep_recent_messages + 1
                    &&& stats.after_tokens == token_total(final(self).history_view())
                    &&& record matches Some(rec) && {
                        &&& rec.session_id == final(self).session_id
                        &&& rec.scope_type@ == "global"@
                        &&& rec.scope_id is None
                        &&& rec.from_sequence == 1
                        &&& rec.to_sequence == compacted as i64
                        &&& rec.summary_json == summary_json
                        &&& rec.summary_text == summary_text
                        &&& rec.token_estimate == token_estimate(summary_content(summary_text@))
                        &&& rec.model == model
                    }
                }
            }),
    {
        let ghost before = self.history_view();
        let before_messages = self.global_history.len();
        proof {
            lemma_token_total_prefix(before, 0);
        }
        let before_tokens = self.estimated_tokens();
        if before_messages <= keep_recent_messages {
            return (
                CompactStats {
                    before_messages,
                    after_messages: before_messages,
                    before_tokens,
                    after_tokens: before_tokens,
                },
                None,
            );
        }
        let compacted_count = before_messages - keep_recent_messages;
        let recent = self.global_history.split_off(compacted_count);
        assert(views(recent@) =~= before.skip(compacted_count as int));

        let mut content = String::from_str("Conversation summary for compacted older context:\n");
        content.append(summary_text.as_str());
        let mut entries: Vec<(String, serde_json::Value)> = Vec::new();
        entries.push(
            (String::from_str("kind"), json_string(String::from_str("structured_compact_summary"))),
        );
        entries.push((String::from_str("summary"), summary_json.clone()));
        entries.push((String::from_str("compacted_message_count"), json_usize(compacted_count)));
        assert(entry_views(entries@) =~= seq![
            ("kind"@, json_str("structured_compact_summary"@)),
            ("summary"@, summary_json),
            ("compacted_message_count"@, json_count(compacted_count)),
        ]);
        let metadata = json_object(entries);
        let summary_message = Message::system(content).with_metadata(metadata);
        let token_estimate_value = estimate_tokens(summary_message.content.as_str());

        let mut compacted_history: Vec<Message> = Vec::new();
        compacted_history.push(summary_message);
        let ghost head = views(compacted_history@);
        let ghost rec_view = views(recent@);
        let mut j: usize = 0;
        while j < recent.len()
            invariant
                j <= rec_view.len(),
                rec_view == views(recent@),
                views(compacted_history@) == head + rec_view.take(j as int),
            decreases rec_view.len() - j,
        {
            let c = recent[j].clone();
            assert(c@ == rec_view[j as int]);
            proof {
                crate::sliding_window::lemma_views_push(compacted_history@, c);
            }
            compacted_history.push(c);
            assert(views(compacted_history@) =~= head + rec_view.take(j + 1));
            j = j + 1;
        }
        assert(rec_view.take(rec_view.len() as int) =~= rec_view);
        self.global_history = compacted_history;
        self.rebuild_character_history();
        proof {
            let after = self.history_view();
            assert(after.drop_first() =~= before.skip(compacted_count as int));
            assert(after =~= seq![after[0]] + before.skip(compacted_count as int));
            lemma_token_total_concat(seq![after[0]], before.skip(compacted_count as int));
            lemma_token_total_suffix(before, compacted_count as int);
            reveal_with_fuel(token_total, 2);
            assert(seq![after[0]].drop_last() =~= Seq::<MessageView>::empty());
        }
        let after_tokens = self.estimated_tokens();
        let record = SummaryRecord {
            id: random_uuid(),
            session_id: self.session_id.clone(),
            scope_type: String::from_str("global"),
            scope_id: None,
            from_sequence: 1,
            to_sequence: compacted_count as i64,
            summary_json,
            summary_text,
            token_estimate: token_estimate_value,
            model,
        };
        (
            CompactStats {
                before_messages,
                after_messages: self.global_history.len(),
                before_tokens,
                after_tokens,
            },
            Some(record),
        )
    }

    /// Compacts all but the eight most recent messages under a fallback
    /// summary that only states how many messages were compacted.
    pub fn compact(&mut self)
        requires
            token_total(old(self).history_view()) + token_estimate(
                summary_content(fallback_summary_text((old(self).history_view().len() - 8) as nat)),
            ) <= usize::MAX,
        ensures
            old(self).history_view().len() <= 8 ==> final(self).history_view() == old(self).history_view(),
            old(self).history_view().len() > 8 ==> {
                &&& final(self).history_view().len() == 9
                &&& final(self).history_view().drop_first() == old(self).history_view().skip(
                    old(self).history_view().len() - 8,
                )
                &&& final(self).history_view()[0].role == Role::System
                &&& final(self).history_view()[0].content == summary_content(
                    fallback_summary_text((old(self).history_view().len() - 8) as nat),
                )
                &&& final(self).history_view()[0].metadata == Some(
                    compaction_metadata(
                        json_object_of(seq![("fallback"@, json_boolean(true))]),
                        (old(self).history_view().len() - 8) as usize,
                    ),
                )
                &&& final(self).characters_view() == scoped_index(final(self).history_view())
            },
    {
        if self.global_history.len() <= 8 {
            return;
        }
        let compacted_count = self.global_history.len() - 8;
        let mut text = String::from_str(
            "Earlier context was compacted without an LLM summary. Compacted messages: ",
        );
        let digits = crate::text::usize_to_decimal(compacted_count);
        text.append(digits.as_str());
        text.append(".");
        let mut entries: Vec<(String, serde_json::Value)> = Vec::new();
        entries.push((String::from_str("fallback"), json_bool(true)));
        assert(entry_views(entries@) =~= seq![("fallback"@, json_boolean(true))]);
        let fallback = json_object(entries);
        let _ = self.compact_with_summary(text, fallback, 8, String::from_str("fallback"));
    }
}

/// The metadata of a compaction's summary message: its kind, the summary's
/// JSON, and how many messages it replaced.
pub open spec fn compaction_metadata(summary_json: serde_json::Value, compacted: usize) -> serde_json::Value {
    json_object_of(
        seq![
            ("kind"@, json_str("structured_compact_summary"@)),
            ("summary"@, summary_json),
            ("compacted_message_count"@, json_count(compacted)),
        ],
    )
}

/// The last `n` messages of a history, or all of them when there are fewer.
pub open spec fn recent(h: Seq<MessageView>, n: nat) -> Seq<MessageView> {
    if n >= h.len() {
        h
    } else {
        h.skip(h.len() - n)
    }
}

/// The fallback summary text of a compaction of `n` messages.
pub open spec fn fallback_summary_text(n: nat) -> Seq<char> {
    "Earlier context was compacted without an LLM summary. Compacted messages: "@
        + crate::text::decimal(n) + "."@
}

pub proof fn lemma_token_total_concat(a: Seq<MessageView>, b: Seq<MessageView>)
    ensures
        token_total(a + b) == token_total(a) + token_total(b),
    decreases b.len(),
{
    if b.len() == 0 {
        assert(a + b =~= a);
    } else {
        assert((a + b).drop_last() =~= a + b.drop_last());
        lemma_token_total_concat(a, b.drop_last());
    }
}

pub proof fn lemma_token_total_prefix(s: Seq<MessageView>, i: int)
    requires
        0 <= i <= s.len(),
    ensures
        token_total(s.take(i)) <= token_total(s),
{
    assert(s =~= s.take(i) + s.skip(i));
    lemma_token_total_concat(s.take(i), s.skip(i));
}

pub proof fn lemma_token_total_suffix(s: Seq<MessageView>, i: int)
    requires
        0 <= i <= s.len(),
    ensures
        token_total(s.skip(i)) <= token_total(s),
{
    assert(s =~= s.take(i) + s.skip(i));
    lemma_token_total_concat(s.take(i), s.skip(i));
}

} // verus!
