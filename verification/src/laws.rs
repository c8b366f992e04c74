//! Properties that span several calls: editing keys that undo each other,
//! the chat panel's scrolling and wrapping, the most recent message of a
//! conversation, the fairness of round-robin turns, and lookups after
//! writes in the keyed collections.

use vstd::prelude::*;
use crate::conversation::recent;
use crate::director::names_of;
use crate::graph::{EdgeView, GraphStepView, StateGraphView, step_after, step_to};
use crate::layout::{chat_scroll_spec, sat_sub, wrapped_total};
use crate::message::MessageView;
use crate::tui_app::{App, KeyCode, insert_at, key_effect};
use crate::command::Command;
use crate::turn_manager::{TurnManager, TurnStep, next_action_spec};
use crate::types::{Character, TurnDecisionView, TurnStrategy};
use vstd::arithmetic::div_mod::{lemma_fundamental_div_mod, lemma_mod_multiples_vanish, lemma_small_mod};

verus! {

/// Typing a character and then pressing Backspace gives back the input and
/// the cursor as they were, and leaves the rest of the front end alone.
pub proof fn law_backspace_undoes_typing(
    a0: App,
    a1: App,
    a2: App,
    c: char,
    ctrl_typing: bool,
    ctrl_erasing: bool,
    r1: Option<Command>,
    r2: Option<Command>,
)
    requires
        a0.wf(),
        !(c == 'c' && ctrl_typing),
        key_effect(a0, KeyCode::Char(c), ctrl_typing, a1, r1),
        key_effect(a1, KeyCode::Backspace, ctrl_erasing, a2, r2),
    ensures
        a2.input@ == a0.input@,
        a2 == (App { input: a2.input, ..a0 }),
        r1 is None && r2 is None,
{
    let s = a0.input@;
    let k = a0.cursor_position as int;
    assert(insert_at(s, k, c).remove(k) =~= s);
}

/// Moving the cursor right and then left, away from the end of the input,
/// leaves the front end as it was.
pub proof fn law_left_undoes_right(
    a0: App,
    a1: App,
    a2: App,
    ctrl1: bool,
    ctrl2: bool,
    r1: Option<Command>,
    r2: Option<Command>,
)
    requires
        a0.cursor_position < a0.input@.len(),
        key_effect(a0, KeyCode::Right, ctrl1, a1, r1),
        key_effect(a1, KeyCode::Left, ctrl2, a2, r2),
    ensures
        a2 == a0,
{
}

/// Page Down undoes Page Up, short of the largest scroll offset.
pub proof fn law_page_down_undoes_page_up(
    a0: App,
    a1: App,
    a2: App,
    ctrl1: bool,
    ctrl2: bool,
    r1: Option<Command>,
    r2: Option<Command>,
)
    requires
        a0.scroll_offset as int + 5 <= u16::MAX,
        key_effect(a0, KeyCode::PageUp, ctrl1, a1, r1),
        key_effect(a1, KeyCode::PageDown, ctrl2, a2, r2),
    ensures
        a2 == a0,
{
}

/// Unscrolled, the chat panel shows its last rows: from the top when all
/// rows fit, else from the row that puts the last one at the bottom (as
/// long as that row number fits the panel's 16-bit scroll).
pub proof fn law_unscrolled_panel_shows_latest_rows(total: int, inner_height: int)
    requires
        0 <= total,
        0 <= inner_height,
    ensures
        total <= inner_height ==> chat_scroll_spec(total, inner_height, 0) == 0,
        inner_height < total <= inner_height + u16::MAX ==> chat_scroll_spec(total, inner_height, 0)
            + inner_height == total,
{
}

/// Scrolling up never moves the first shown row below the unscrolled one.
pub proof fn law_scrolling_shows_earlier_rows(total: int, inner_height: int, scroll_offset: int)
    requires
        0 <= total,
        0 <= inner_height,
        0 <= scroll_offset,
        sat_sub(total, inner_height) <= u16::MAX,
    ensures
        chat_scroll_spec(total, inner_height, scroll_offset) <= chat_scroll_spec(total, inner_height, 0),
{
}

/// Every line of chat text takes at least one row of a panel with room.
pub proof fn law_every_line_takes_a_row(lines: Seq<String>, width: int)
    requires
        width > 0,
    ensures
        wrapped_total(lines, width) >= lines.len(),
    decreases lines.len(),
{
    if lines.len() > 0 {
        law_every_line_takes_a_row(lines.drop_last(), width);
    }
}

/// Right after a message is added, it is the one most recent message.
pub proof fn law_added_message_is_most_recent(history: Seq<MessageView>, m: MessageView)
    ensures
        recent(history.push(m), 1) == seq![m],
{
    assert(history.push(m).skip(history.len() as int) =~= seq![m]);
}

/// Whether a step gives the turn to the named character alone.
pub open spec fn gives_turn(step: TurnStep, name: Seq<char>) -> bool {
    step matches TurnStep::Decided(d) && d@ == TurnDecisionView::Sequential(seq![name])
}

/// Whether one of the steps gives the turn to the named character alone.
pub open spec fn has_turn(steps: Seq<TurnStep>, name: Seq<char>) -> bool {
    exists|k: int| 0 <= k < steps.len() && #[trigger] gives_turn(steps[k], name)
}

/// Under round robin each step counts one more turn.
proof fn lemma_round_robin_counts(
    managers: Seq<TurnManager>,
    steps: Seq<TurnStep>,
    nanos: Seq<u32>,
    available: Seq<Character>,
    k: int,
)
    requires
        available.len() > 0,
        managers.len() == steps.len() + 1,
        nanos.len() == steps.len(),
        managers[0].strategy == TurnStrategy::RoundRobin,
        forall|j: int|
            0 <= j < steps.len() ==> next_action_spec(
                #[trigger] managers[j],
                managers[j + 1],
                available,
                nanos[j],
                steps[j],
            ),
        0 <= k <= steps.len(),
    ensures
        managers[k].strategy == TurnStrategy::RoundRobin,
        managers[k].round_robin_index == managers[0].round_robin_index + k,
    decreases k,
{
    if k > 0 {
        lemma_round_robin_counts(managers, steps, nanos, available, k - 1);
        assert(next_action_spec(managers[k - 1], managers[k], available, nanos[k - 1], steps[k - 1]));
    }
}

/// Round robin is fair: over as many consecutive steps as there are
/// characters, each character is given a turn.
pub proof fn law_round_robin_gives_everyone_a_turn(
    managers: Seq<TurnManager>,
    steps: Seq<TurnStep>,
    nanos: Seq<u32>,
    available: Seq<Character>,
)
    requires
        available.len() > 0,
        steps.len() == available.len(),
        managers.len() == steps.len() + 1,
        nanos.len() == steps.len(),
        managers[0].strategy == TurnStrategy::RoundRobin,
        forall|j: int|
            0 <= j < steps.len() ==> next_action_spec(
                #[trigger] managers[j],
                managers[j + 1],
                available,
                nanos[j],
                steps[j],
            ),
    ensures
        forall|p: int| 0 <= p < available.len() ==> #[trigger] has_turn(steps, names_of(available)[p]),
{
    let n = available.len() as int;
    let r = managers[0].round_robin_index as int;
    assert forall|p: int| 0 <= p < available.len() implies #[trigger] has_turn(
        steps,
        names_of(available)[p],
    ) by {
        lemma_fundamental_div_mod(r, n);
        let m = r % n;
        let q = r / n;
        let k = if p >= m {
            p - m
        } else {
            p - m + n
        };
        lemma_round_robin_counts(managers, steps, nanos, available, k);
        assert(next_action_spec(managers[k], managers[k + 1], available, nanos[k], steps[k]));
        let idx = managers[k].round_robin_index as int;
        assert(idx == r + k);
        if p >= m {
            assert(idx == n * q + p);
            lemma_mod_multiples_vanish(q, p, n);
        } else {
            assert(idx == n * (q + 1) + p) by (nonlinear_arith)
                requires
                    idx == r + k,
                    r == n * q + m,
                    k == p - m + n,
            ;
            lemma_mod_multiples_vanish(q + 1, p, n);
        }
        lemma_small_mod(p as nat, n as nat);
        assert(idx % n == p);
        assert(gives_turn(steps[k], names_of(available)[p]));
    }
}

/// Round robin goes through the characters in order: the step that follows
/// `k` earlier round-robin steps gives the turn to the character at the
/// turn count plus `k`, modulo their number; counted from a new or reset
/// manager, the `k`-th step gives it to character `k` modulo their number.
pub proof fn law_round_robin_order(
    managers: Seq<TurnManager>,
    steps: Seq<TurnStep>,
    nanos: Seq<u32>,
    available: Seq<Character>,
)
    requires
        available.len() > 0,
        managers.len() == steps.len() + 1,
        nanos.len() == steps.len(),
        managers[0].strategy == TurnStrategy::RoundRobin,
        forall|j: int|
            0 <= j < steps.len() ==> next_action_spec(
                #[trigger] managers[j],
                managers[j + 1],
                available,
                nanos[j],
                steps[j],
            ),
    ensures
        forall|k: int|
            0 <= k < steps.len() ==> gives_turn(
                #[trigger] steps[k],
                names_of(available)[(managers[0].round_robin_index + k) % (available.len() as int)],
            ),
        managers[0].round_robin_index == 0 ==> forall|k: int|
            0 <= k < steps.len() ==> gives_turn(
                #[trigger] steps[k],
                names_of(available)[k % (available.len() as int)],
            ),
{
    assert forall|k: int| 0 <= k < steps.len() implies gives_turn(
        #[trigger] steps[k],
        names_of(available)[(managers[0].round_robin_index + k) % (available.len() as int)],
    ) by {
        lemma_round_robin_counts(managers, steps, nanos, available, k);
        assert(next_action_spec(managers[k], managers[k + 1], available, nanos[k], steps[k]));
    }
}

/// A node set as an end point ends the run after it.
pub proof fn law_end_point_ends_the_run(g: StateGraphView, node: Seq<char>)
    ensures
        step_after(StateGraphView { edges: g.edges.insert(node, EdgeView::End), ..g }, node)
            == GraphStepView::Finish,
{
}

/// A run starts by running the entry point's node once that node is added.
pub proof fn law_run_starts_at_entry_point(g: StateGraphView)
    ensures
        step_to(StateGraphView { nodes: g.nodes.insert(g.entry_point), ..g }, g.entry_point)
            == GraphStepView::Execute(g.entry_point),
{
}

/// What is written under a key is what a lookup of that key gives back, and
/// a write leaves the other keys as they were.
pub proof fn law_lookup_gives_back_the_write<V>(
    m: Map<Seq<char>, V>,
    key: Seq<char>,
    value: V,
    other: Seq<char>,
)
    requires
        other != key,
    ensures
        m.insert(key, value).contains_key(key),
        m.insert(key, value)[key] == value,
        m.insert(key, value).contains_key(other) == m.contains_key(other),
        m.contains_key(other) ==> m.insert(key, value)[other] == m[other],
{
}

} // verus!
