//! The director: a model prompted with the story and the recent
//! conversation that answers with a JSON decision about who speaks next.
//! This module builds the director's prompt and turns its answer into a
//! decision; the model call itself is made by the caller.

use vstd::prelude::*;
use crate::config::StoryConfig;
use crate::message::{Message, MessageView, Role};
use crate::sliding_window::views;
use crate::text::{trim, trim_str, push_char};
use crate::types::{Character, TurnDecision, TurnDecisionView, strs_view};

verus! {

/// The director's settings, taken from the story.
#[derive(Debug)]
pub struct Director {
    pub system_prompt: String,
    pub protagonist_name: String,
    pub story_title: String,
    pub story_description: String,
    pub scene_goals: Vec<String>,
    pub scene_context: Option<String>,
    /// How many recent messages the director sees (at least one).
    pub recent_message_count: usize,
}

/// The JSON object the director answers with: `{"type": ..., "speakers": [...]}`.
#[derive(Debug)]
pub struct DirectorOutput {
    pub decision_type: String,
    pub speakers: Option<Vec<String>>,
}

/// The parts joined with a separator between them.
pub open spec fn join(parts: Seq<Seq<char>>, sep: Seq<char>) -> Seq<char>
    decreases parts.len(),
{
    if parts.len() == 0 {
        Seq::empty()
    } else if parts.len() == 1 {
        parts[0]
    } else {
        join(parts.drop_last(), sep) + sep + parts.last()
    }
}

pub proof fn lemma_strs_view_push(s: Seq<String>, x: String)
    ensures
        strs_view(s.push(x)) == strs_view(s).push(x@),
{
    assert(strs_view(s.push(x)) =~= strs_view(s).push(x@));
}

/// Joins the strings with a separator between them.
pub fn join_strings(parts: &Vec<String>, sep: &str) -> (r: String)
    ensures
        r@ == join(strs_view(parts@), sep@),
{
    let mut r = String::new();
    let mut i: usize = 0;
    while i < parts.len()
        invariant
            i <= parts@.len(),
            r@ == join(strs_view(parts@).take(i as int), sep@),
        decreases parts@.len() - i,
    {
        proof {
            let t = strs_view(parts@).take(i + 1);
            assert(t.drop_last() =~= strs_view(parts@).take(i as int));
            assert(t.last() == parts@[i as int]@);
            if i == 0 {
                assert(strs_view(parts@).take(0) =~= Seq::<Seq<char>>::empty());
            }
        }
        if i > 0 {
            r.append(sep);
        }
        r.append(parts[i].as_str());
        i = i + 1;
    }
    assert(strs_view(parts@).take(parts@.len() as int) =~= strs_view(parts@));
    r
}

/// Each goal as a `- goal` bullet.
pub open spec fn bullets(goals: Seq<Seq<char>>) -> Seq<Seq<char>> {
    goals.map_values(|g: Seq<char>| "- "@ + g)
}

/// The goals section of the director's context.
pub open spec fn goals_text(goals: Seq<Seq<char>>) -> Seq<char> {
    if goals.len() == 0 {
        "无"@
    } else {
        join(bullets(goals), "\n"@)
    }
}

/// The story context the director is given.
pub open spec fn context_text(d: Director, names: Seq<Seq<char>>) -> Seq<char> {
    "故事标题: "@ + d.story_title@ + "\n故事描述: "@ + d.story_description@ + "\n玩家角色名: "@
        + d.protagonist_name@ + "\n可用NPC角色: "@ + join(names, "、"@) + "\n场景目标:\n"@ + goals_text(
        strs_view(d.scene_goals@),
    ) + "\n场景上下文: "@ + (match d.scene_context {
        Some(c) => c@,
        None => "无"@,
    }) + "\n\n根据对话历史，决定接下来发生什么。只输出一个JSON对象。"@
}

/// The names of the characters.
pub open spec fn names_of(cs: Seq<Character>) -> Seq<Seq<char>> {
    cs.map_values(|c: Character| c.name@)
}

/// The last `k` elements of a sequence (all of them when there are fewer).
pub open spec fn last_k<A>(s: Seq<A>, k: int) -> Seq<A> {
    if k >= s.len() {
        s
    } else {
        s.skip(s.len() - k)
    }
}

/// The closing instruction of the director's prompt.
pub open spec fn decide_instruction() -> Seq<char> {
    "输出JSON决定接下来发生什么。"@
}

/// `s` without repeated leading copies of `p` (as `str::trim_start_matches`).
pub open spec fn strip_prefixes(s: Seq<char>, p: Seq<char>) -> Seq<char>
    decreases s.len(),
{
    if p.len() > 0 && s.len() >= p.len() && s.take(p.len() as int) == p {
        strip_prefixes(s.skip(p.len() as int), p)
    } else {
        s
    }
}

/// `s` without repeated trailing copies of `p` (as `str::trim_end_matches`).
pub open spec fn strip_suffixes(s: Seq<char>, p: Seq<char>) -> Seq<char>
    decreases s.len(),
{
    if p.len() > 0 && s.len() >= p.len() && s.skip(s.len() - p.len()) == p {
        strip_suffixes(s.take(s.len() - p.len()), p)
    } else {
        s
    }
}

/// Index of the first occurrence of `c` in `s`, or -1.
pub open spec fn first_index(s: Seq<char>, c: char) -> int
    decreases s.len(),
{
    if s.len() == 0 {
        -1
    } else if s[0] == c {
        0
    } else {
        let r = first_index(s.drop_first(), c);
        if r < 0 {
            -1
        } else {
            r + 1
        }
    }
}

/// Index of the last occurrence of `c` in `s`, or -1.
pub open spec fn last_index(s: Seq<char>, c: char) -> int
    decreases s.len(),
{
    if s.len() == 0 {
        -1
    } else if s.last() == c {
        s.len() - 1
    } else {
        last_index(s.drop_last(), c)
    }
}

/// The text without code fences and surrounding whitespace.
pub open spec fn unfenced(text: Seq<char>) -> Seq<char> {
    trim(strip_suffixes(strip_prefixes(strip_prefixes(text, "```json"@), "```"@), "```"@))
}

/// The JSON object of a noisy answer: from the first `{` to the last `}`
/// of the unfenced text, or the whole unfenced text when there is none.
pub open spec fn extract_json_spec(text: Seq<char>) -> Seq<char> {
    let s = unfenced(text);
    let a = first_index(s, '{');
    let b = last_index(s, '}');
    if a >= 0 && b >= 0 && b > a {
        s.subrange(a, b + 1)
    } else {
        s
    }
}

/// The names that are among the available characters, in order.
pub open spec fn valid_names(names: Seq<Seq<char>>, available: Seq<Seq<char>>) -> Seq<Seq<char>> {
    names.filter(|n: Seq<char>| available.contains(n))
}

/// ASCII lower case of every character.
pub open spec fn ascii_fold(s: Seq<char>) -> Seq<char> {
    s.map_values(|c: char| crate::command::ascii_lower(c))
}

/// Whether `pat` occurs in `s`.
pub open spec fn contains_seq(s: Seq<char>, pat: Seq<char>) -> bool {
    exists|i: int| 0 <= i <= s.len() - pat.len() && #[trigger] s.subrange(i, i + pat.len()) == pat
}

/// The decision a JSON answer states, if it states a usable one.
pub open spec fn json_decision(o: Option<DirectorOutput>, available: Seq<Seq<char>>) -> Option<
    TurnDecisionView,
> {
    match o {
        Some(out) => {
            let t = out.decision_type@;
            if t == "player"@ {
                Some(TurnDecisionView::Player)
            } else if t == "end_scene"@ {
                Some(TurnDecisionView::EndScene)
            } else if t == "sequential"@ && out.speakers is Some && valid_names(
                strs_view(out.speakers->0@),
                available,
            ).len() > 0 {
                Some(TurnDecisionView::Sequential(valid_names(strs_view(out.speakers->0@), available)))
            } else if t == "parallel"@ && out.speakers is Some && valid_names(
                strs_view(out.speakers->0@),
                available,
            ).len() > 0 {
                Some(TurnDecisionView::Parallel(valid_names(strs_view(out.speakers->0@), available)))
            } else {
                None
            }
        },
        None => None,
    }
}

/// The decision taken from the director's answer: the JSON decision when it
/// states a usable one; else the player when the answer mentions the player,
/// the end of the scene when it mentions it, and otherwise the first
/// available character (an empty name when there is none). The mentions are
/// looked up in the answer's lower case; for these words that is its ASCII
/// lower case.
pub open spec fn decision_spec(text: Seq<char>, o: Option<DirectorOutput>, available: Seq<Seq<char>>) -> TurnDecisionView {
    match json_decision(o, available) {
        Some(d) => d,
        None => {
            let lower = ascii_fold(text);
            if contains_seq(lower, "player"@) || contains_seq(lower, "玩家"@) {
                TurnDecisionView::Player
            } else if contains_seq(lower, "end_scene"@) || contains_seq(lower, "结束"@) {
                TurnDecisionView::EndScene
            } else {
                TurnDecisionView::Sequential(
                    seq![if available.len() > 0 { available[0] } else { Seq::empty() }],
                )
            }
        },
    }
}

/// The speakers of a decision that names some, in the order named.
pub open spec fn named_speakers(d: TurnDecisionView) -> Seq<Seq<char>> {
    match d {
        TurnDecisionView::Sequential(v) => v,
        TurnDecisionView::Parallel(v) => v,
        _ => Seq::empty(),
    }
}

/// A JSON answer of type `sequential` (or `parallel`) that names at least
/// one available character gives the turn, in that mode, to exactly the
/// named speakers that are available, in the order named: every one of them
/// is kept, none is dropped, and nobody else is added.
pub proof fn law_director_keeps_every_available_speaker(
    text: Seq<char>,
    out: DirectorOutput,
    available: Seq<Seq<char>>,
)
    requires
        out.speakers is Some,
        exists|i: int|
            0 <= i < strs_view(out.speakers->0@).len() && available.contains(
                #[trigger] strs_view(out.speakers->0@)[i],
            ),
    ensures
        out.decision_type@ == "sequential"@ ==> decision_spec(text, Some(out), available)
            is Sequential,
        out.decision_type@ == "parallel"@ ==> decision_spec(text, Some(out), available) is Parallel,
        out.decision_type@ == "sequential"@ || out.decision_type@ == "parallel"@ ==> {
            let sp = strs_view(out.speakers->0@);
            let r = named_speakers(decision_spec(text, Some(out), available));
            &&& r == sp.filter(|n: Seq<char>| available.contains(n))
            &&& forall|i: int|
                0 <= i < sp.len() && available.contains(sp[i]) ==> r.contains(#[trigger] sp[i])
            &&& forall|i: int| 0 <= i < r.len() ==> available.contains(#[trigger] r[i]) && sp.contains(r[i])
        },
{
    broadcast use vstd::seq_lib::group_filter_ensures;
    reveal_strlit("sequential");
    reveal_strlit("parallel");
    reveal_strlit("player");
    reveal_strlit("end_scene");
    let sp = strs_view(out.speakers->0@);
    let pred = |n: Seq<char>| available.contains(n);
    let i = choose|i: int| 0 <= i < sp.len() && available.contains(#[trigger] sp[i]);
    sp.lemma_filter_contains(pred, i);
    assert(valid_names(sp, available) == sp.filter(pred));
    assert(sp.filter(pred).len() > 0);
    let t = out.decision_type@;
    if t == "sequential"@ {
        assert(t.len() != "player"@.len() && t.len() != "end_scene"@.len());
        assert(json_decision(Some(out), available) == Some(TurnDecisionView::Sequential(sp.filter(pred))));
    }
    if t == "parallel"@ {
        assert(t.len() != "player"@.len());
        assert(t[0] != "end_scene"@[0]);
        assert(t != "sequential"@) by {
            assert(t[0] != "sequential"@[0]);
        }
        assert(json_decision(Some(out), available) == Some(TurnDecisionView::Parallel(sp.filter(pred))));
    }
    assert forall|k: int| 0 <= k < sp.filter(pred).len() implies available.contains(
        #[trigger] sp.filter(pred)[k],
    ) && sp.contains(sp.filter(pred)[k]) by {
        sp.lemma_filter_pred(pred, k);
        assert(sp.filter(pred).contains(sp.filter(pred)[k]));
        sp.lemma_filter_contains_rev(pred, sp.filter(pred)[k]);
    }
}

/// Whether `s[i..]` starts with `p`.
fn starts_at(s: &str, i: usize, p: &str) -> (b: bool)
    requires
        i <= s@.len(),
    ensures
        b == (s@.len() - i >= p@.len() && s@.subrange(i as int, i + p@.len()) == p@),
{
    let n = s.unicode_len();
    let m = p.unicode_len();
    if n - i < m {
        return false;
    }
    let mut k: usize = 0;
    while k < m
        invariant
            n == s@.len(),
            m == p@.len(),
            i + m <= n,
            k <= m,
            forall|j: int| 0 <= j < k ==> s@[i + j] == p@[j],
        decreases m - k,
    {
        if s.get_char(i + k) != p.get_char(k) {
            assert(s@.subrange(i as int, i + m)[k as int] != p@[k as int]);
            return false;
        }
        k = k + 1;
    }
    assert(s@.subrange(i as int, i + m) =~= p@);
    true
}

/// Whether `pat` occurs in the ASCII lower case of `s`.
fn folded_contains(s: &str, pat: &str) -> (b: bool)
    requires
        pat@.len() > 0,
        forall|j: int| 0 <= j < pat@.len() ==> crate::command::ascii_lower(pat@[j]) == pat@[j],
    ensures
        b == contains_seq(ascii_fold(s@), pat@),
{
    let n = s.unicode_len();
    let m = pat.unicode_len();
    let ghost f = ascii_fold(s@);
    if m > n {
        assert(!contains_seq(f, pat@)) by {
            if contains_seq(f, pat@) {
                let i = choose|i: int| 0 <= i <= f.len() - pat@.len() && #[trigger] f.subrange(i, i + pat@.len()) == pat@;
            }
        }
        return false;
    }
    let mut i: usize = 0;
    while i <= n - m
        invariant
            n == s@.len(),
            m == pat@.len(),
            0 < m <= n,
            i <= n - m + 1,
            f == ascii_fold(s@),
            forall|k: int| 0 <= k < i ==> #[trigger] f.subrange(k, k + m) != pat@,
        decreases n - m + 1 - i,
    {
        let mut k: usize = 0;
        let mut ok = true;
        while k < m
            invariant
                n == s@.len(),
                m == pat@.len(),
                i + m <= n,
                f == ascii_fold(s@),
                k <= m,
                ok ==> forall|j: int| 0 <= j < k ==> f[i + j] == pat@[j],
                !ok ==> f.subrange(i as int, i + m) != pat@,
            decreases m - k,
        {
            let c = s.get_char(i + k);
            let lower = if 'A' <= c && c <= 'Z' {
                ((c as u32) + 32) as u8 as char
            } else {
                c
            };
            assert(lower == f[i + k]) by {
                if 'A' <= c && c <= 'Z' {
                    assert(((c as u32) + 32) as u8 as char == ((c as u32) + 32) as char);
                }
            }
            if ok && lower != pat.get_char(k) {
                ok = false;
                assert(f.subrange(i as int, i + m)[k as int] != pat@[k as int]);
            }
            k = k + 1;
        }
        if ok {
            assert(f.subrange(i as int, i + m) =~= pat@);
            return true;
        }
        i = i + 1;
    }
    assert(!contains_seq(f, pat@));
    false
}

impl Director {
    /// The director of a story; it sees at least one recent message.
    pub fn from_story_config(story: &StoryConfig) -> (d: Director)
        ensures
            d.system_prompt == story.director.system_prompt,
            d.protagonist_name == story.protagonist_name,
            d.story_title == story.title,
            d.story_description == story.description,
            d.scene_goals@ == story.scene_goals@,
            d.scene_context == story.scene_context,
            d.recent_message_count == if story.director.recent_message_count >= 1 {
                story.director.recent_message_count
            } else {
                1
            },
    {
        let mut goals: Vec<String> = Vec::new();
        let mut i: usize = 0;
        while i < story.scene_goals.len()
            invariant
                i <= story.scene_goals@.len(),
                goals@ == story.scene_goals@.take(i as int),
            decreases story.scene_goals@.len() - i,
        {
            goals.push(story.scene_goals[i].clone());
            assert(goals@ =~= story.scene_goals@.take(i + 1));
            i = i + 1;
        }
        assert(story.scene_goals@.take(story.scene_goals@.len() as int) =~= story.scene_goals@);
        let n = story.director.recent_message_count;
        Director {
            system_prompt: story.director.system_prompt.clone(),
            protagonist_name: story.protagonist_name.clone(),
            story_title: story.title.clone(),
            story_description: story.description.clone(),
            scene_goals: goals,
            scene_context: crate::message::clone_opt_string(&story.scene_context),
            recent_message_count: if n >= 1 {
                n
            } else {
                1
            },
        }
    }

    /// The story context listing the given character names.
    pub fn build_context(&self, character_names: &Vec<String>) -> (s: String)
        ensures
            s@ == context_text(*self, strs_view(character_names@)),
    {
        let goals = if self.scene_goals.len() == 0 {
            String::from_str("无")
        } else {
            let mut items: Vec<String> = Vec::new();
            let mut i: usize = 0;
            while i < self.scene_goals.len()
                invariant
                    i <= self.scene_goals@.len(),
                    strs_view(items@) == bullets(strs_view(self.scene_goals@)).take(i as int),
                decreases self.scene_goals@.len() - i,
            {
                let mut item = String::from_str("- ");
                item.append(self.scene_goals[i].as_str());
                proof {
                    lemma_strs_view_push(items@, item);
                    let b = bullets(strs_view(self.scene_goals@));
                    assert(b.take(i + 1) =~= b.take(i as int).push(b[i as int]));
                    assert(b[i as int] == "- "@ + self.scene_goals@[i as int]@);
                }
                items.push(item);
                assert(strs_view(items@) =~= bullets(strs_view(self.scene_goals@)).take(i + 1));
                i = i + 1;
            }
            assert(bullets(strs_view(self.scene_goals@)).take(self.scene_goals@.len() as int)
                =~= bullets(strs_view(self.scene_goals@)));
            join_strings(&items, "\n")
        };
        let mut s = String::from_str("故事标题: ");
        s.append(self.story_title.as_str());
        s.append("\n故事描述: ");
        s.append(self.story_description.as_str());
        s.append("\n玩家角色名: ");
        s.append(self.protagonist_name.as_str());
        s.append("\n可用NPC角色: ");
        let names = join_strings(character_names, "、");
        s.append(names.as_str());
        s.append("\n场景目标:\n");
        s.append(goals.as_str());
        s.append("\n场景上下文: ");
        match &self.scene_context {
            Some(c) => s.append(c.as_str()),
            None => s.append("无"),
        }
        s.append("\n\n根据对话历史，决定接下来发生什么。只输出一个JSON对象。");
        s
    }

    /// The messages sent to the director's model: its system prompt, the
    /// story context, the most recent messages, and the request for a JSON
    /// decision.
    pub fn request_messages(&self, conversation: &[Message], available_characters: &[Character]) -> (ms: Vec<Message>)
        ensures
            ms@.len() == last_k(views(conversation@), self.recent_message_count as int).len() + 3,
            ms@[0]@.role == Role::System,
            ms@[0]@.content == self.system_prompt@,
            ms@[1]@.role == Role::System,
            ms@[1]@.content == context_text(*self, names_of(available_characters@)),
            views(ms@).subrange(2, ms@.len() - 1) == last_k(views(conversation@), self.recent_message_count as int),
            ms@.last()@.role == Role::User,
            ms@.last()@.content == decide_instruction(),
    {
        let mut names: Vec<String> = Vec::new();
        let mut i: usize = 0;
        while i < available_characters.len()
            invariant
                i <= available_characters@.len(),
                strs_view(names@) == names_of(available_characters@).take(i as int),
            decreases available_characters@.len() - i,
        {
            let nm = available_characters[i].name.clone();
            proof {
                lemma_strs_view_push(names@, nm);
                let b = names_of(available_characters@);
                assert(b.take(i + 1) =~= b.take(i as int).push(b[i as int]));
            }
            names.push(nm);
            i = i + 1;
        }
        assert(names_of(available_characters@).take(available_characters@.len() as int) =~= names_of(available_characters@));
        let context = self.build_context(&names);
        let mut ms: Vec<Message> = Vec::new();
        ms.push(Message::system(self.system_prompt.clone()));
        ms.push(Message::system(context));
        assert(ms@[0]@.content == self.system_prompt@);
        assert(ms@[1]@.content == context_text(*self, names_of(available_characters@)));
        let n = conversation.len();
        let start = if self.recent_message_count >= n {
            0
        } else {
            n - self.recent_message_count
        };
        let ghost recent = last_k(views(conversation@), self.recent_message_count as int);
        let ghost head = views(ms@);
        let mut j = start;
        while j < n
            invariant
                start <= j <= n,
                n == conversation@.len(),
                recent == last_k(views(conversation@), self.recent_message_count as int),
                recent == views(conversation@).subrange(start as int, n as int),
                head.len() == 2,
                views(ms@) == head + recent.take(j - start),
            decreases n - j,
        {
            let c = conversation[j].clone();
            proof {
                crate::sliding_window::lemma_views_push(ms@, c);
                assert(recent[j - start] == conversation@[j as int]@);
            }
            ms.push(c);
            assert(views(ms@) =~= head + recent.take(j - start + 1));
            j = j + 1;
        }
        assert(recent.take(n - start) =~= recent);
        let ghost mid = views(ms@);
        let last = Message::user(String::from_str("输出JSON决定接下来发生什么。"));
        proof {
            crate::sliding_window::lemma_views_push(ms@, last);
        }
        ms.push(last);
        assert(views(ms@).subrange(2, ms@.len() - 1) =~= recent);
        assert(views(ms@)[0] == head[0]);
        assert(views(ms@)[1] == head[1]);
        assert(head[0] == ms@[0]@);
        ms
    }

    /// The JSON object of a noisy answer.
    pub fn extract_json(text: &str) -> (s: String)
        ensures
            s@ == extract_json_spec(text@),
    {
        let a = strip_prefixes_exec(text, "```json");
        let b = strip_prefixes_exec(a, "```");
        let c = strip_suffixes_exec(b, "```");
        let stripped = trim_str(c);
        let n = stripped.unicode_len();
        let ghost st = stripped@;
        let start = find_first(stripped, '{');
        let end = find_last(stripped, '}');
        match (start, end) {
            (Some(a), Some(b)) => {
                if b > a {
                    return String::from_str(stripped.substring_char(a, b + 1));
                }
            },
            _ => {},
        }
        String::from_str(stripped)
    }

    /// The names that are among the available characters, in order.
    pub fn filter_valid_names(&self, names: &Vec<String>, available_characters: &[Character]) -> (v: Vec<String>)
        ensures
            strs_view(v@) == valid_names(strs_view(names@), names_of(available_characters@)),
    {
        let ghost avail = names_of(available_characters@);
        let ghost p = |n: Seq<char>| avail.contains(n);
        let mut out: Vec<String> = Vec::new();
        let mut i: usize = 0;
        while i < names.len()
            invariant
                i <= names@.len(),
                avail == names_of(available_characters@),
                p == (|n: Seq<char>| avail.contains(n)),
                strs_view(out@) == strs_view(names@).take(i as int).filter(p),
            decreases names@.len() - i,
        {
            let mut found = false;
            let mut k: usize = 0;
            while k < available_characters.len()
                invariant
                    k <= available_characters@.len(),
                    i < names@.len(),
                    avail == names_of(available_characters@),
                    found == exists|j: int| 0 <= j < k && avail[j] == names@[i as int]@,
                decreases available_characters@.len() - k,
            {
                if available_characters[k].name == names[i] {
                    found = true;
                }
                assert(avail[k as int] == available_characters@[k as int].name@);
                k = k + 1;
            }
            assert(found == avail.contains(names@[i as int]@));
            proof {
                reveal(Seq::filter);
                let t = strs_view(names@).take(i + 1);
                assert(t.drop_last() =~= strs_view(names@).take(i as int));
                assert(t.last() == names@[i as int]@);
            }
            if found {
                out.push(names[i].clone());
            }
            assert(strs_view(out@) =~= strs_view(names@).take(i + 1).filter(p));
            i = i + 1;
        }
        assert(strs_view(names@).take(names@.len() as int) =~= strs_view(names@));
        out
    }

    /// The decision the director's answer states. `response_text` is the
    /// trimmed answer and `parsed` its JSON object (from `extract_json`), if
    /// it parsed as one.
    pub fn parse_decision(
        &self,
        response_text: &str,
        parsed: Option<DirectorOutput>,
        available_characters: &[Character],
    ) -> (d: TurnDecision)
        ensures
            d@ == decision_spec(response_text@, parsed, names_of(available_characters@)),
    {
        let ghost parsed0 = parsed;
        let ghost avail = names_of(available_characters@);
        if let Some(output) = parsed {
            if string_is(&output.decision_type, "player") {
                return TurnDecision::Player;
            }
            if string_is(&output.decision_type, "end_scene") {
                return TurnDecision::EndScene;
            }
            let is_seq = string_is(&output.decision_type, "sequential");
            let is_par = string_is(&output.decision_type, "parallel");
            if is_seq || is_par {
                if let Some(speakers) = output.speakers {
                    let valid = self.filter_valid_names(&speakers, available_characters);
                    if valid.len() > 0 {
                        if is_seq {
                            return TurnDecision::Sequential(valid);
                        } else {
                            return TurnDecision::Parallel(valid);
                        }
                    }
                }
            }
        }
        assert(json_decision(parsed0, avail) is None);
        proof {
            reveal_strlit("player");
            reveal_strlit("玩家");
            reveal_strlit("end_scene");
            reveal_strlit("结束");
        }
        if folded_contains(response_text, "player") || folded_contains(response_text, "玩家") {
            return TurnDecision::Player;
        }
        if folded_contains(response_text, "end_scene") || folded_contains(response_text, "结束") {
            return TurnDecision::EndScene;
        }
        let fallback = if available_characters.len() > 0 {
            available_characters[0].name.clone()
        } else {
            String::new()
        };
        let mut v: Vec<String> = Vec::new();
        v.push(fallback);
        assert(strs_view(v@) =~= seq![if avail.len() > 0 { avail[0] } else { Seq::<char>::empty() }]);
        TurnDecision::Sequential(v)
    }
}

/// Whether a string holds exactly the given text.
fn string_is(s: &String, t: &str) -> (b: bool)
    ensures
        b == (s@ == t@),
{
    let n = s.as_str().unicode_len();
    if n != t.unicode_len() {
        return false;
    }
    let r = starts_at(s.as_str(), 0, t);
    assert(s@.subrange(0, n as int) =~= s@);
    r
}

/// Removes repeated leading copies of `p`.
fn strip_prefixes_exec<'a>(s: &'a str, p: &str) -> (r: &'a str)
    ensures
        r@ == strip_prefixes(s@, p@),
{
    let n = s.unicode_len();
    let m = p.unicode_len();
    let mut i: usize = 0;
    assert(s@.skip(0) =~= s@);
    while m > 0 && i <= n && starts_at(s, i, p)
        invariant
            n == s@.len(),
            m == p@.len(),
            i <= n,
            strip_prefixes(s@, p@) == strip_prefixes(s@.skip(i as int), p@),
        decreases n - i,
    {
        proof {
            let t = s@.skip(i as int);
            assert(t.take(m as int) =~= s@.subrange(i as int, i + m));
            assert(t.skip(m as int) =~= s@.skip(i + m));
        }
        i = i + m;
    }
    proof {
        let t = s@.skip(i as int);
        if m > 0 && t.len() >= m {
            assert(t.take(m as int) =~= s@.subrange(i as int, i + m));
        }
    }
    s.substring_char(i, n)
}

/// Removes repeated trailing copies of `p`.
fn strip_suffixes_exec<'a>(s: &'a str, p: &str) -> (r: &'a str)
    ensures
        r@ == strip_suffixes(s@, p@),
{
    let n = s.unicode_len();
    let m = p.unicode_len();
    let mut j: usize = n;
    assert(s@.take(n as int) =~= s@);
    while m > 0 && j >= m && starts_at(s, j - m, p)
        invariant
            n == s@.len(),
            m == p@.len(),
            j <= n,
            strip_suffixes(s@, p@) == strip_suffixes(s@.take(j as int), p@),
        decreases j,
    {
        proof {
            let t = s@.take(j as int);
            assert(t.skip(t.len() - m) =~= s@.subrange(j - m, j as int));
            assert(t.take(t.len() - m) =~= s@.take(j - m));
        }
        j = j - m;
    }
    proof {
        let t = s@.take(j as int);
        if m > 0 && t.len() >= m {
            assert(t.skip(t.len() - m) =~= s@.subrange(j - m, j as int));
        }
    }
    let r = s.substring_char(0, j);
    assert(r@ =~= s@.take(j as int));
    r
}

/// Index of the first occurrence of `c`.
fn find_first(s: &str, c: char) -> (r: Option<usize>)
    ensures
        match r {
            Some(i) => first_index(s@, c) == i && i < s@.len(),
            None => first_index(s@, c) == -1,
        },
{
    let n = s.unicode_len();
    let mut i: usize = 0;
    assert(s@.skip(0) =~= s@);
    while i < n
        invariant
            n == s@.len(),
            i <= n,
            first_index(s@, c) == if first_index(s@.skip(i as int), c) < 0 {
                -1
            } else {
                first_index(s@.skip(i as int), c) + i
            },
        decreases n - i,
    {
        if s.get_char(i) == c {
            return Some(i);
        }
        assert(s@.skip(i as int).drop_first() =~= s@.skip(i + 1));
        i = i + 1;
    }
    None
}

/// Index of the last occurrence of `c`.
fn find_last(s: &str, c: char) -> (r: Option<usize>)
    ensures
        match r {
            Some(i) => last_index(s@, c) == i && i < s@.len(),
            None => last_index(s@, c) == -1,
        },
{
    let n = s.unicode_len();
    let mut j: usize = n;
    assert(s@.take(n as int) =~= s@);
    while j > 0
        invariant
            n == s@.len(),
            j <= n,
            last_index(s@, c) == last_index(s@.take(j as int), c),
        decreases j,
    {
        if s.get_char(j - 1) == c {
            assert(s@.take(j as int).last() == c);
            return Some(j - 1);
        }
        assert(s@.take(j as int).drop_last() =~= s@.take(j - 1));
        j = j - 1;
    }
    None
}

} // verus!
