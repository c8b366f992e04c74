//! Sliding window over a conversation: keeps the system prompts, the most
//! recent messages, and then drops the oldest non-system messages until the
//! text fits the character budget.

use vstd::prelude::*;
use crate::message::{Message, MessageView, Role};

verus! {

/// Limits of the context handed to a character's model call.
#[derive(Debug, Clone, Copy)]
pub struct SlidingWindowContext {
    /// Maximum number of messages kept beside the set-aside system messages.
    pub max_messages: usize,
    /// Most characters, counted over the contents of the kept messages.
    pub max_chars: usize,
    /// Keep every system message, whatever the window.
    pub preserve_system: bool,
}

/// The views of a sequence of messages.
pub open spec fn views(s: Seq<Message>) -> Seq<MessageView> {
    s.map_values(|m: Message| m@)
}

/// Characters of the contents of a message.
pub open spec fn msg_chars(m: MessageView) -> nat {
    m.content.len()
}

/// Total characters of the contents of a sequence of messages.
pub open spec fn total_chars(s: Seq<MessageView>) -> nat
    decreases s.len(),
{
    if s.len() == 0 {
        0
    } else {
        total_chars(s.drop_last()) + msg_chars(s.last())
    }
}

/// Whether a message is set aside as a preserved system message.
pub open spec fn set_aside(preserve_system: bool, m: MessageView) -> bool {
    preserve_system && m.role == Role::System
}

/// Whether a sequence holds a message whose role is not `System`.
pub open spec fn has_non_system(s: Seq<MessageView>) -> bool {
    exists|i: int| 0 <= i < s.len() && s[i].role != Role::System
}

/// The sequence without its first non-system message.
pub open spec fn remove_first_non_system(s: Seq<MessageView>) -> Seq<MessageView>
    decreases s.len(),
{
    if s.len() == 0 {
        s
    } else if s[0].role != Role::System {
        s.drop_first()
    } else {
        seq![s[0]] + remove_first_non_system(s.drop_first())
    }
}

/// Drops the oldest non-system messages, one at a time, while the contents
/// exceed `max_chars` characters and more than one message is left.
pub open spec fn trim_to_budget(s: Seq<MessageView>, max_chars: nat) -> Seq<MessageView>
    decreases s.len(),
{
    if total_chars(s) > max_chars && s.len() > 1 && has_non_system(s) {
        proof {
            lemma_remove_first_non_system_len(s);
        }
        trim_to_budget(remove_first_non_system(s), max_chars)
    } else {
        s
    }
}

impl SlidingWindowContext {
    /// The preserved system messages, in order.
    pub open spec fn system_part(self, ms: Seq<MessageView>) -> Seq<MessageView> {
        ms.filter(|m: MessageView| set_aside(self.preserve_system, m))
    }

    /// The other messages, in order.
    pub open spec fn other_part(self, ms: Seq<MessageView>) -> Seq<MessageView> {
        ms.filter(|m: MessageView| !set_aside(self.preserve_system, m))
    }

    /// The last `max_messages` of the other messages.
    pub open spec fn windowed_part(self, ms: Seq<MessageView>) -> Seq<MessageView> {
        let other = self.other_part(ms);
        if other.len() > self.max_messages {
            other.skip(other.len() - self.max_messages)
        } else {
            other
        }
    }

    /// What the window keeps of `ms`: the preserved system messages, then the
    /// windowed others, trimmed to the character budget.
    pub open spec fn window(self, ms: Seq<MessageView>) -> Seq<MessageView> {
        trim_to_budget(self.system_part(ms) + self.windowed_part(ms), self.max_chars as nat)
    }
}

pub proof fn lemma_remove_first_non_system_len(s: Seq<MessageView>)
    requires
        has_non_system(s),
    ensures
        remove_first_non_system(s).len() == s.len() - 1,
    decreases s.len(),
{
    if s[0].role == Role::System {
        let t = s.drop_first();
        let i = choose|i: int| 0 <= i < s.len() && s[i].role != Role::System;
        assert(t[i - 1] == s[i]);
        lemma_remove_first_non_system_len(t);
    }
}

/// Removing the first non-system message is removing it by its index.
pub proof fn lemma_remove_first_non_system_at(s: Seq<MessageView>, i: int)
    requires
        0 <= i < s.len(),
        s[i].role != Role::System,
        forall|j: int| 0 <= j < i ==> s[j].role == Role::System,
    ensures
        remove_first_non_system(s) =~= s.remove(i),
    decreases s.len(),
{
    if i > 0 {
        let t = s.drop_first();
        assert forall|j: int| 0 <= j < i - 1 implies t[j].role == Role::System by {
            assert(t[j] == s[j + 1]);
        }
        lemma_remove_first_non_system_at(t, i - 1);
        assert(seq![s[0]] + t.remove(i - 1) =~= s.remove(i));
    }
}

pub proof fn lemma_total_chars_concat(a: Seq<MessageView>, b: Seq<MessageView>)
    ensures
        total_chars(a + b) == total_chars(a) + total_chars(b),
    decreases b.len(),
{
    if b.len() == 0 {
        assert(a + b =~= a);
    } else {
        assert((a + b).drop_last() =~= a + b.drop_last());
        lemma_total_chars_concat(a, b.drop_last());
    }
}

pub proof fn lemma_total_chars_one(m: MessageView)
    ensures
        total_chars(seq![m]) == msg_chars(m),
{
    assert(seq![m].drop_last() =~= Seq::<MessageView>::empty());
    reveal_with_fuel(total_chars, 2);
}

pub proof fn lemma_total_chars_remove(s: Seq<MessageView>, i: int)
    requires
        0 <= i < s.len(),
    ensures
        total_chars(s.remove(i)) + msg_chars(s[i]) == total_chars(s),
{
    let a = s.take(i);
    let b = s.skip(i + 1);
    assert(s =~= a + seq![s[i]] + b);
    assert(s.remove(i) =~= a + b);
    lemma_total_chars_concat(a, b);
    lemma_total_chars_concat(a + seq![s[i]], b);
    lemma_total_chars_concat(a, seq![s[i]]);
    lemma_total_chars_one(s[i]);
}

pub proof fn lemma_views_push(s: Seq<Message>, m: Message)
    ensures
        views(s.push(m)) == views(s).push(m@),
{
    assert(views(s.push(m)) =~= views(s).push(m@)) by {
        assert forall|k: int| 0 <= k < s.len() + 1 implies #[trigger] views(s.push(m))[k]
            == views(s).push(m@)[k] by {
            if k < s.len() {
                assert(s.push(m)[k] == s[k]);
            }
        }
    }
}

/// Characters of a message's contents.
fn content_chars(m: &Message) -> (n: usize)
    ensures
        n == msg_chars(m@),
{
    m.content.as_str().unicode_len()
}

/// Index of the first message whose role is not `System`.
fn first_non_system(v: &Vec<Message>) -> (r: Option<usize>)
    ensures
        match r {
            Some(i) => i < v@.len() && v@[i as int].role != Role::System
                && forall|j: int| 0 <= j < i ==> v@[j].role == Role::System,
            None => forall|j: int| 0 <= j < v@.len() ==> v@[j].role == Role::System,
        },
{
    let mut i: usize = 0;
    while i < v.len()
        invariant
            i <= v@.len(),
            forall|j: int| 0 <= j < i ==> v@[j].role == Role::System,
        decreases v@.len() - i,
    {
        if v[i].role != Role::System {
            return Some(i);
        }
        i = i + 1;
    }
    None
}

impl SlidingWindowContext {
    /// A window of at most `max_messages` non-system messages and
    /// `max_chars` characters, preserving system messages.
    pub fn new(max_messages: usize, max_chars: usize) -> (w: Self)
        ensures
            w.max_messages == max_messages,
            w.max_chars == max_chars,
            w.preserve_system,
    {
        SlidingWindowContext { max_messages, max_chars, preserve_system: true }
    }

    /// The messages of `messages` that the window keeps.
    pub fn apply(&self, messages: &[Message]) -> (res: Vec<Message>)
        ensures
            views(res@) == self.window(views(messages@)),
    {
        let ghost ms = views(messages@);
        let ghost p = |m: MessageView| set_aside(self.preserve_system, m);
        let ghost q = |m: MessageView| !set_aside(self.preserve_system, m);
        let mut system_messages: Vec<Message> = Vec::new();
        let mut other_messages: Vec<Message> = Vec::new();
        let mut i: usize = 0;
        while i < messages.len()
            invariant
                i <= messages@.len(),
                ms == views(messages@),
                p == (|m: MessageView| set_aside(self.preserve_system, m)),
                q == (|m: MessageView| !set_aside(self.preserve_system, m)),
                views(system_messages@) == ms.take(i as int).filter(p),
                views(other_messages@) == ms.take(i as int).filter(q),
            decreases messages@.len() - i,
        {
            let msg = messages[i].clone();
            proof {
                reveal(Seq::filter);
                assert(ms.take(i + 1).drop_last() =~= ms.take(i as int));
                assert(ms.take(i + 1).last() == ms[i as int]);
            }
            if self.preserve_system && msg.role == Role::System {
                system_messages.push(msg);
                assert(views(system_messages@) =~= ms.take(i + 1).filter(p));
                assert(views(other_messages@) =~= ms.take(i + 1).filter(q));
            } else {
                other_messages.push(msg);
                assert(views(system_messages@) =~= ms.take(i + 1).filter(p));
                assert(views(other_messages@) =~= ms.take(i + 1).filter(q));
            }
            i = i + 1;
        }
        assert(ms.take(messages@.len() as int) =~= ms);
        assert(views(system_messages@) == self.system_part(ms));
        assert(views(other_messages@) == self.other_part(ms));

        let windowed: Vec<Message> = if other_messages.len() > self.max_messages {
            let start = other_messages.len() - self.max_messages;
            let tail = other_messages.split_off(start);
            assert(views(tail@) =~= self.other_part(ms).skip(start as int));
            tail
        } else {
            other_messages
        };
        assert(views(windowed@) == self.windowed_part(ms));

        let mut result = system_messages;
        let ghost sys_len = result@.len();
        let mut j: usize = 0;
        let ghost win = views(windowed@);
        let ghost sys = views(result@);
        while j < windowed.len()
            invariant
                j <= windowed@.len(),
                win == views(windowed@),
                views(result@) == sys + win.take(j as int),
            decreases windowed@.len() - j,
        {
            let c = windowed[j].clone();
            assert(c@ == win[j as int]);
            proof {
                lemma_views_push(result@, c);
            }
            result.push(c);
            assert(views(result@) =~= sys + win.take(j + 1));
            j = j + 1;
        }
        assert(win.take(windowed@.len() as int) =~= win);
        let ghost start = views(result@);
        assert(start == self.system_part(ms) + self.windowed_part(ms));

        // Counted in `u128`: each content has at most `usize::MAX` characters
        // and there are at most `usize::MAX` messages, so the total fits.
        let ghost cap: int = usize::MAX as int;
        let mut kept_chars: u128 = 0;
        let mut k: usize = 0;
        while k < result.len()
            invariant
                k <= result@.len(),
                start == views(result@),
                cap == usize::MAX as int,
                kept_chars == total_chars(start.take(k as int)),
                kept_chars <= k * cap,
            decreases result@.len() - k,
        {
            proof {
                assert(start.take(k + 1).drop_last() =~= start.take(k as int));
            }
            let n = content_chars(&result[k]);
            proof {
                let len = result@.len() as int;
                assert(kept_chars + n <= (k + 1) * cap) by (nonlinear_arith)
                    requires
                        kept_chars <= k * cap,
                        n <= cap,
                ;
                assert((k + 1) * cap <= cap * cap) by (nonlinear_arith)
                    requires
                        k + 1 <= len,
                        len <= cap,
                        0 <= cap,
                ;
                assert(cap * cap <= 0xffff_ffff_ffff_ffff * 0xffff_ffff_ffff_ffffint) by (nonlinear_arith)
                    requires
                        0 <= cap <= 0xffff_ffff_ffff_ffff,
                ;
            }
            kept_chars = kept_chars + n as u128;
            k = k + 1;
        }
        assert(start.take(result@.len() as int) =~= start);

        while kept_chars > self.max_chars as u128 && result.len() > 1
            invariant
                kept_chars == total_chars(views(result@)),
                trim_to_budget(views(result@), self.max_chars as nat) == self.window(ms),
            ensures
                trim_to_budget(views(result@), self.max_chars as nat) == views(result@),
            decreases result@.len(),
        {
            match first_non_system(&result) {
                Some(pos) => {
                    let ghost before = views(result@);
                    proof {
                        assert(has_non_system(before)) by {
                            assert(before[pos as int].role != Role::System);
                        }
                        assert forall|jj: int| 0 <= jj < pos implies before[jj].role == Role::System by {
                            assert(before[jj] == result@[jj]@);
                        }
                        lemma_remove_first_non_system_at(before, pos as int);
                        lemma_total_chars_remove(before, pos as int);
                    }
                    let n = content_chars(&result[pos]);
                    kept_chars = kept_chars - n as u128;
                    result.remove(pos);
                    assert(views(result@) =~= before.remove(pos as int));
                },
                None => {
                    proof {
                        let cur = views(result@);
                        assert(!has_non_system(cur)) by {
                            assert forall|jj: int| 0 <= jj < cur.len() implies cur[jj].role == Role::System by {
                                assert(cur[jj] == result@[jj]@);
                            }
                        }
                    }
                    break;
                },
            }
        }
        result
    }
}

impl Default for SlidingWindowContext {
    /// Fifty messages, 32 000 characters, system messages preserved.
    fn default() -> (w: Self)
        ensures
            w.max_messages == 50,
            w.max_chars == 32_000,
            w.preserve_system,
    {
        SlidingWindowContext { max_messages: 50, max_chars: 32_000, preserve_system: true }
    }
}


pub proof fn lemma_remove_first_non_system_keeps_prefix(a: Seq<MessageView>, b: Seq<MessageView>)
    requires
        forall|i: int| 0 <= i < a.len() ==> a[i].role == Role::System,
    ensures
        remove_first_non_system(a + b) == a + remove_first_non_system(b),
    decreases a.len(),
{
    if a.len() == 0 {
        assert(a + b =~= b);
        assert(a + remove_first_non_system(b) =~= remove_first_non_system(b));
    } else {
        assert((a + b)[0] == a[0]);
        assert((a + b).drop_first() =~= a.drop_first() + b);
        lemma_remove_first_non_system_keeps_prefix(a.drop_first(), b);
        assert(seq![a[0]] + (a.drop_first() + remove_first_non_system(b)) =~= a
            + remove_first_non_system(b));
    }
}

pub proof fn lemma_trim_keeps_system_prefix(a: Seq<MessageView>, b: Seq<MessageView>, max: nat) -> (c:
    Seq<MessageView>)
    requires
        forall|i: int| 0 <= i < a.len() ==> a[i].role == Role::System,
    ensures
        trim_to_budget(a + b, max) == a + c,
    decreases b.len(),
{
    let s = a + b;
    if total_chars(s) > max && s.len() > 1 && has_non_system(s) {
        lemma_remove_first_non_system_keeps_prefix(a, b);
        let i = choose|i: int| 0 <= i < s.len() && s[i].role != Role::System;
        assert(i >= a.len());
        assert(b[i - a.len()].role != Role::System);
        lemma_remove_first_non_system_len(b);
        lemma_trim_keeps_system_prefix(a, remove_first_non_system(b), max)
    } else {
        assert(trim_to_budget(a + b, max) == a + b);
        b
    }
}

pub proof fn lemma_trim_stops(s: Seq<MessageView>, max: nat)
    ensures
        ({
            let t = trim_to_budget(s, max);
            total_chars(t) <= max || t.len() <= 1 || !has_non_system(t)
        }),
    decreases s.len(),
{
    if total_chars(s) > max && s.len() > 1 && has_non_system(s) {
        lemma_remove_first_non_system_len(s);
        lemma_trim_stops(remove_first_non_system(s), max);
    }
}

pub proof fn lemma_remove_first_non_system_subset(s: Seq<MessageView>)
    ensures
        forall|m: MessageView| remove_first_non_system(s).contains(m) ==> s.contains(m),
    decreases s.len(),
{
    if s.len() > 0 {
        lemma_remove_first_non_system_subset(s.drop_first());
        assert forall|m: MessageView| remove_first_non_system(s).contains(m) implies s.contains(m) by {
            let r = remove_first_non_system(s);
            let k = choose|k: int| 0 <= k < r.len() && r[k] == m;
            if s[0].role != Role::System {
                assert(s[k + 1] == m);
            } else if k == 0 {
                assert(s[0] == m);
            } else {
                let t = s.drop_first();
                assert(remove_first_non_system(t)[k - 1] == m);
                assert(remove_first_non_system(t).contains(m));
                assert(t.contains(m));
                let k2 = choose|k2: int| 0 <= k2 < t.len() && t[k2] == m;
                assert(s[k2 + 1] == m);
            }
        }
    }
}

pub proof fn lemma_trim_subset(s: Seq<MessageView>, max: nat)
    ensures
        forall|m: MessageView| trim_to_budget(s, max).contains(m) ==> s.contains(m),
    decreases s.len(),
{
    if total_chars(s) > max && s.len() > 1 && has_non_system(s) {
        lemma_remove_first_non_system_len(s);
        lemma_remove_first_non_system_subset(s);
        lemma_trim_subset(remove_first_non_system(s), max);
    }
}

/// Trimming to the budget never adds messages.
pub proof fn lemma_trim_len(s: Seq<MessageView>, max: nat)
    ensures
        trim_to_budget(s, max).len() <= s.len(),
    decreases s.len(),
{
    if total_chars(s) > max && s.len() > 1 && has_non_system(s) {
        lemma_remove_first_non_system_len(s);
        lemma_trim_len(remove_first_non_system(s), max);
    }
}

/// The window holds at most `max_messages` messages besides the preserved
/// system messages.
pub proof fn law_window_respects_message_limit(w: SlidingWindowContext, ms: Seq<MessageView>)
    ensures
        w.window(ms).len() <= w.system_part(ms).len() + w.max_messages,
{
    lemma_trim_len(w.system_part(ms) + w.windowed_part(ms), w.max_chars as nat);
}

/// Trimming a preserved system prefix followed by other messages keeps the
/// prefix, and what follows it is drawn from the other messages.
pub proof fn lemma_trim_prefix_rest(a: Seq<MessageView>, b: Seq<MessageView>, max: nat) -> (c:
    Seq<MessageView>)
    requires
        forall|i: int| 0 <= i < a.len() ==> a[i].role == Role::System,
    ensures
        trim_to_budget(a + b, max) == a + c,
        c.len() <= b.len(),
        forall|m: MessageView| c.contains(m) ==> b.contains(m),
    decreases b.len(),
{
    let s = a + b;
    if total_chars(s) > max && s.len() > 1 && has_non_system(s) {
        lemma_remove_first_non_system_keeps_prefix(a, b);
        let i = choose|i: int| 0 <= i < s.len() && s[i].role != Role::System;
        assert(i >= a.len());
        assert(b[i - a.len()].role != Role::System);
        lemma_remove_first_non_system_len(b);
        lemma_remove_first_non_system_subset(b);
        lemma_trim_prefix_rest(a, remove_first_non_system(b), max)
    } else {
        assert(trim_to_budget(a + b, max) == a + b);
        b
    }
}

/// Keeping the elements that pass a test they all pass keeps all of them.
proof fn lemma_filter_all(s: Seq<MessageView>, p: spec_fn(MessageView) -> bool)
    requires
        forall|i: int| 0 <= i < s.len() ==> p(#[trigger] s[i]),
    ensures
        s.filter(p) == s,
    decreases s.len(),
{
    reveal(Seq::filter);
    if s.len() > 0 {
        lemma_filter_all(s.drop_last(), p);
        assert(s.drop_last().push(s.last()) =~= s);
    } else {
        assert(s.filter(p) =~= s);
    }
}

/// Keeping the elements that pass a test none passes keeps none.
proof fn lemma_filter_none(s: Seq<MessageView>, p: spec_fn(MessageView) -> bool)
    requires
        forall|i: int| 0 <= i < s.len() ==> !p(#[trigger] s[i]),
    ensures
        s.filter(p) == Seq::<MessageView>::empty(),
    decreases s.len(),
{
    reveal(Seq::filter);
    if s.len() > 0 {
        lemma_filter_none(s.drop_last(), p);
    } else {
        assert(s.filter(p) =~= Seq::<MessageView>::empty());
    }
}

/// A trimmed sequence is trimmed already.
proof fn lemma_trim_twice(s: Seq<MessageView>, max: nat)
    ensures
        trim_to_budget(trim_to_budget(s, max), max) == trim_to_budget(s, max),
{
    lemma_trim_stops(s, max);
}

/// Windowing a window again changes nothing.
pub proof fn law_window_is_idempotent(w: SlidingWindowContext, ms: Seq<MessageView>)
    ensures
        w.window(w.window(ms)) == w.window(ms),
{
    let p = |m: MessageView| set_aside(w.preserve_system, m);
    let q = |m: MessageView| !set_aside(w.preserve_system, m);
    let sys = w.system_part(ms);
    let other = w.other_part(ms);
    let win = w.windowed_part(ms);
    let max = w.max_chars as nat;
    let r = w.window(ms);
    assert forall|i: int| 0 <= i < sys.len() implies p(#[trigger] sys[i]) by {
        ms.lemma_filter_pred(p, i);
    }
    assert forall|i: int| 0 <= i < other.len() implies q(#[trigger] other[i]) by {
        ms.lemma_filter_pred(q, i);
    }
    assert forall|i: int| 0 <= i < win.len() implies q(#[trigger] win[i]) by {
        if other.len() > w.max_messages {
            assert(win[i] == other[i + other.len() - w.max_messages]);
        }
    }
    lemma_trim_twice(sys + win, max);
    if w.preserve_system {
        let c = lemma_trim_prefix_rest(sys, win, max);
        assert(r == sys + c);
        assert forall|i: int| 0 <= i < c.len() implies q(#[trigger] c[i]) by {
            assert(c.contains(c[i]));
            assert(win.contains(c[i]));
            let k = choose|k: int| 0 <= k < win.len() && win[k] == c[i];
            assert(q(win[k]));
        }
        lemma_filter_all(sys, p);
        lemma_filter_none(sys, q);
        lemma_filter_all(c, q);
        assert forall|i: int| 0 <= i < c.len() implies !p(#[trigger] c[i]) by {
            assert(q(c[i]));
        }
        lemma_filter_none(c, p);
        Seq::filter_distributes_over_add(sys, c, p);
        Seq::filter_distributes_over_add(sys, c, q);
        assert(sys + Seq::<MessageView>::empty() =~= sys);
        assert(Seq::<MessageView>::empty() + c =~= c);
        assert(w.system_part(r) == sys);
        assert(w.other_part(r) == c);
        assert(w.windowed_part(r) == c);
    } else {
        assert(sys =~= Seq::<MessageView>::empty()) by {
            lemma_filter_none(ms, p);
        }
        assert(sys + win =~= win);
        lemma_trim_len(win, max);
        assert forall|i: int| 0 <= i < r.len() implies q(#[trigger] r[i]) && !p(r[i]) by {}
        lemma_filter_all(r, q);
        lemma_filter_none(r, p);
        assert(w.system_part(r) =~= Seq::<MessageView>::empty());
        assert(w.windowed_part(r) == r);
        assert(Seq::<MessageView>::empty() + r =~= r);
    }
}

/// Splitting a sequence by a test and its negation keeps every element once.
proof fn lemma_partition_len(s: Seq<MessageView>, p: spec_fn(MessageView) -> bool, q: spec_fn(MessageView) -> bool)
    requires
        forall|m: MessageView| #[trigger] q(m) == !p(m),
    ensures
        s.filter(p).len() + s.filter(q).len() == s.len(),
    decreases s.len(),
{
    reveal(Seq::filter);
    if s.len() > 0 {
        lemma_partition_len(s.drop_last(), p, q);
    }
}

/// The window holds no more messages than its input, and nothing of an
/// empty input.
pub proof fn law_window_never_grows(w: SlidingWindowContext, ms: Seq<MessageView>)
    ensures
        w.window(ms).len() <= ms.len(),
        ms.len() == 0 ==> w.window(ms).len() == 0,
{
    let p = |m: MessageView| set_aside(w.preserve_system, m);
    let q = |m: MessageView| !set_aside(w.preserve_system, m);
    lemma_partition_len(ms, p, q);
    lemma_trim_len(w.system_part(ms) + w.windowed_part(ms), w.max_chars as nat);
}

/// Preserved system messages are never dropped: with `preserve_system`, the
/// window starts with every system message of the input, in order.
pub proof fn law_window_keeps_system_messages(w: SlidingWindowContext, ms: Seq<MessageView>)
    requires
        w.preserve_system,
    ensures
        w.window(ms).take(w.system_part(ms).len() as int) == w.system_part(ms),
        w.system_part(ms) == ms.filter(|m: MessageView| m.role == Role::System),
{
    let sys = w.system_part(ms);
    assert forall|i: int| 0 <= i < sys.len() implies sys[i].role == Role::System by {
        ms.lemma_filter_pred(|m: MessageView| set_aside(w.preserve_system, m), i);
    }
    let c = lemma_trim_keeps_system_prefix(sys, w.windowed_part(ms), w.max_chars as nat);
    assert((sys + c).take(sys.len() as int) =~= sys);
    assert((|m: MessageView| set_aside(w.preserve_system, m)) =~= (|m: MessageView| m.role
        == Role::System));
}

/// The window fits its character budget, unless it is down to one message or to
/// system messages only.
pub proof fn law_window_fits_budget(w: SlidingWindowContext, ms: Seq<MessageView>)
    ensures
        ({
            let t = w.window(ms);
            total_chars(t) <= w.max_chars || t.len() <= 1 || !has_non_system(t)
        }),
{
    lemma_trim_stops(w.system_part(ms) + w.windowed_part(ms), w.max_chars as nat);
}

/// The window holds only messages of the input.
pub proof fn law_window_is_drawn_from_input(w: SlidingWindowContext, ms: Seq<MessageView>)
    ensures
        forall|m: MessageView| w.window(ms).contains(m) ==> ms.contains(m),
{
    let sys = w.system_part(ms);
    let win = w.windowed_part(ms);
    let other = w.other_part(ms);
    lemma_trim_subset(sys + win, w.max_chars as nat);
    assert forall|m: MessageView| w.window(ms).contains(m) implies ms.contains(m) by {
        assert((sys + win).contains(m));
        let k = choose|k: int| 0 <= k < (sys + win).len() && (sys + win)[k] == m;
        if k < sys.len() {
            assert(sys[k] == m);
            assert(sys.contains(m));
            ms.lemma_filter_contains_rev(|m: MessageView| set_aside(w.preserve_system, m), m);
        } else {
            assert(win[k - sys.len()] == m);
            assert(other.contains(m)) by {
                if other.len() > w.max_messages {
                    assert(other[k - sys.len() + other.len() - w.max_messages] == m);
                } else {
                    assert(other[k - sys.len()] == m);
                }
            }
            ms.lemma_filter_contains_rev(|m: MessageView| !set_aside(w.preserve_system, m), m);
        }
    }
}

} // verus!
