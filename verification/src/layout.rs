//! Layout of the chat panel: the lines shown for each message, soft-wrap
//! hints between wide characters, the number of rows a wrapped line takes,
//! and the scroll position that keeps the newest rows in view.

use vstd::prelude::*;
use std::collections::VecDeque;
use crate::text::{is_ws, push_char, char_is_whitespace};
use crate::tui_app::ChatMessage;

verus! {

/// Display width of a character (`UnicodeWidthChar::width`).
pub uninterp spec fn unicode_char_width(c: char) -> Option<usize>;

/// Display width of a text (`UnicodeWidthStr::width`).
pub uninterp spec fn unicode_str_width(s: Seq<char>) -> usize;

/// The extended grapheme clusters of a text, without line feeds, as ratatui
/// splits a span for rendering.
pub uninterp spec fn graphemes(s: Seq<char>) -> Seq<Seq<char>>;

/// `unicode_width::UnicodeWidthChar::width`: the column width of a
/// character, `None` for control characters.
#[verifier::external_body]
fn char_width(c: char) -> (w: Option<usize>)
    ensures
        w == unicode_char_width(c),
{
    unicode_width::UnicodeWidthChar::width(c)
}

/// `unicode_width::UnicodeWidthStr::width`: the column width of a text.
#[verifier::external_body]
fn str_width(s: &str) -> (w: usize)
    ensures
        w == unicode_str_width(s@),
{
    unicode_width::UnicodeWidthStr::width(s)
}

/// The graphemes ratatui renders for a line of text
/// (`ratatui::text::Span::styled_graphemes`): the extended grapheme clusters
/// other than line feeds. Each cluster holds at least one character, so there
/// are no more of them than characters.
#[verifier::external_body]
fn line_graphemes(s: &str) -> (g: Vec<String>)
    ensures
        g@.map_values(|x: String| x@) == graphemes(s@),
        g@.len() <= s@.len(),
{
    ratatui::text::Span::raw(s).styled_graphemes(ratatui::style::Style::default()).map(
        |x| x.symbol.to_string(),
    ).collect()
}

/// Whether a grapheme counts as whitespace where a line may wrap: the
/// zero-width space, or whitespace other than the no-break space.
pub open spec fn wrappable_whitespace(s: Seq<char>) -> bool {
    s == seq!['\u{200b}'] || ((forall|i: int| 0 <= i < s.len() ==> is_ws(s[i])) && s != seq![
        '\u{a0}',
    ])
}

/// Whether a grapheme counts as whitespace where a line may wrap.
pub fn is_wrappable_whitespace(symbol: &str) -> (b: bool)
    ensures
        b == wrappable_whitespace(symbol@),
{
    let n = symbol.unicode_len();
    if n == 1 {
        let c0 = symbol.get_char(0);
        if c0 == '\u{200b}' {
            assert(symbol@ =~= seq!['\u{200b}']);
            return true;
        }
        if c0 == '\u{a0}' {
            assert(symbol@ =~= seq!['\u{a0}']);
            return false;
        }
        assert(symbol@ != seq!['\u{200b}']) by {
            if symbol@ == seq!['\u{200b}'] {
                assert(symbol@[0] == '\u{200b}');
            }
        }
    }
    assert(symbol@ != seq!['\u{200b}']) by {
        if symbol@ == seq!['\u{200b}'] {
            assert(symbol@.len() == 1);
        }
    }
    let mut i: usize = 0;
    while i < n
        invariant
            n == symbol@.len(),
            i <= n,
            symbol@ != seq!['\u{200b}'],
            forall|j: int| 0 <= j < i ==> is_ws(symbol@[j]),
        decreases n - i,
    {
        let ci = symbol.get_char(i);
        if !char_is_whitespace(ci) {
            assert(!is_ws(symbol@[i as int]));
            return false;
        }
        i = i + 1;
    }
    assert(n == 1 ==> symbol@ != seq!['\u{a0}']) by {
        if n == 1 && symbol@ == seq!['\u{a0}'] {
            assert(symbol@[0] == '\u{a0}');
        }
    }
    true
}

/// Whether a character is a wide glyph between which a line may wrap.
pub open spec fn wrappable_wide(c: char) -> bool {
    !is_ws(c) && unicode_char_width(c) == Some(2usize)
}

/// Whether a character is a wide glyph between which a line may wrap.
pub fn is_wrappable_wide_char(c: char) -> (b: bool)
    ensures
        b == wrappable_wide(c),
{
    !char_is_whitespace(c) && match char_width(c) {
        Some(w) => w == 2,
        None => false,
    }
}

/// The text with a zero-width space between every two adjacent wide glyphs.
pub open spec fn cjk_hinted(s: Seq<char>) -> Seq<char>
    decreases s.len(),
{
    if s.len() == 0 {
        s
    } else {
        let prev = cjk_hinted(s.drop_last());
        if s.len() >= 2 && wrappable_wide(s[s.len() - 2]) && wrappable_wide(s.last()) {
            prev.push('\u{200b}').push(s.last())
        } else {
            prev.push(s.last())
        }
    }
}

/// Inserts a zero-width space between adjacent wide glyphs, so that wrapping
/// may break CJK text between any two of its characters.
pub fn add_cjk_wrap_hints(text: &str) -> (out: String)
    ensures
        out@ == cjk_hinted(text@),
{
    let mut output = String::new();
    let mut previous_was_wide = false;
    let n = text.unicode_len();
    let mut i: usize = 0;
    while i < n
        invariant
            n == text@.len(),
            i <= n,
            output@ == cjk_hinted(text@.take(i as int)),
            previous_was_wide == (i > 0 && wrappable_wide(text@[i - 1])),
        decreases n - i,
    {
        let ch = text.get_char(i);
        let current_is_wide = is_wrappable_wide_char(ch);
        proof {
            let t = text@.take(i + 1);
            assert(t.drop_last() =~= text@.take(i as int));
            assert(t.last() == ch);
            if i > 0 {
                assert(t[t.len() - 2] == text@[i - 1]);
            }
        }
        if previous_was_wide && current_is_wide {
            push_char(&mut output, '\u{200b}');
        }
        push_char(&mut output, ch);
        previous_was_wide = current_is_wide;
        i = i + 1;
    }
    assert(text@.take(n as int) =~= text@);
    output
}

/// Word-wrapping state while laying out one line.
pub struct WrapState {
    pub rows: int,
    pub line_width: int,
    pub word_width: int,
    pub whitespace_width: int,
    pub pending_whitespace: Seq<int>,
    pub pending_line_empty: bool,
    pub pending_word_empty: bool,
    pub non_whitespace_previous: bool,
}

/// The state before the first grapheme.
pub open spec fn wrap_start() -> WrapState {
    WrapState {
        rows: 0,
        line_width: 0,
        word_width: 0,
        whitespace_width: 0,
        pending_whitespace: Seq::empty(),
        pending_line_empty: true,
        pending_word_empty: true,
        non_whitespace_previous: false,
    }
}

/// Drops the leading pending whitespace widths that fit in `remaining`
/// columns, returning what is left and its total width.
pub open spec fn pop_fitting(pending: Seq<int>, total: int, remaining: int) -> (Seq<int>, int)
    decreases pending.len(),
{
    if pending.len() > 0 && pending[0] <= remaining {
        pop_fitting(pending.drop_first(), total - pending[0], remaining - pending[0])
    } else {
        (pending, total)
    }
}

/// Appends a grapheme to the pending word or whitespace.
pub open spec fn wrap_add(st: WrapState, is_ws: bool, w: int) -> WrapState {
    if is_ws {
        WrapState {
            whitespace_width: st.whitespace_width + w,
            pending_whitespace: st.pending_whitespace.push(w),
            non_whitespace_previous: false,
            ..st
        }
    } else {
        WrapState {
            word_width: st.word_width + w,
            pending_word_empty: false,
            non_whitespace_previous: true,
            ..st
        }
    }
}

/// One grapheme of width `w` laid out on rows of `width` columns: a word or a
/// whitespace run that ends is committed to the line, a line that is full or
/// cannot take the pending word starts a new row (dropping the whitespace
/// that fits at its end), then the grapheme joins the pending text.
/// Graphemes wider than a row are left out.
pub open spec fn wrap_step(st: WrapState, is_ws: bool, w: int, width: int) -> WrapState {
    if w > width {
        st
    } else {
        let word_found = st.non_whitespace_previous && is_ws;
        let untrimmed_overflow = st.pending_line_empty && st.word_width + st.whitespace_width + w
            > width;
        let s1 = if word_found || untrimmed_overflow {
            let lw1 = if st.pending_whitespace.len() > 0 {
                st.line_width + st.whitespace_width
            } else {
                st.line_width
            };
            let le1 = if st.pending_whitespace.len() > 0 {
                false
            } else {
                st.pending_line_empty
            };
            WrapState {
                line_width: if !st.pending_word_empty {
                    lw1 + st.word_width
                } else {
                    lw1
                },
                pending_line_empty: if !st.pending_word_empty {
                    false
                } else {
                    le1
                },
                pending_word_empty: true,
                pending_whitespace: Seq::empty(),
                whitespace_width: 0,
                word_width: 0,
                ..st
            }
        } else {
            st
        };
        let line_full = s1.line_width >= width;
        let pending_word_overflow = w > 0 && s1.line_width + s1.whitespace_width + s1.word_width
            >= width;
        if line_full || pending_word_overflow {
            let remaining = if width > s1.line_width {
                width - s1.line_width
            } else {
                0
            };
            let popped = pop_fitting(s1.pending_whitespace, s1.whitespace_width, remaining);
            let s2 = WrapState {
                rows: s1.rows + 1,
                line_width: 0,
                pending_line_empty: true,
                pending_whitespace: popped.0,
                whitespace_width: popped.1,
                ..s1
            };
            if is_ws && popped.0.len() == 0 {
                WrapState { non_whitespace_previous: false, ..s2 }
            } else {
                wrap_add(s2, is_ws, w)
            }
        } else {
            wrap_add(s1, is_ws, w)
        }
    }
}

/// The state after laying out the first `n` graphemes of `syms`.
pub open spec fn wrap_fold(syms: Seq<Seq<char>>, n: int, width: int) -> WrapState
    decreases n,
{
    if n <= 0 {
        wrap_start()
    } else {
        wrap_step(
            wrap_fold(syms, n - 1, width),
            wrappable_whitespace(syms[n - 1]),
            unicode_str_width(syms[n - 1]) as int,
            width,
        )
    }
}

/// The rows taken once the last pending text is placed (at least one).
pub open spec fn wrap_finish(st: WrapState) -> int {
    let trailing_ws_only = st.pending_line_empty && st.pending_word_empty
        && st.pending_whitespace.len() > 0;
    let rows1 = if trailing_ws_only {
        st.rows + 1
    } else {
        st.rows
    };
    let pending_left = if trailing_ws_only {
        0
    } else {
        st.pending_whitespace.len()
    };
    let rows2 = if !st.pending_line_empty || pending_left > 0 || !st.pending_word_empty {
        rows1 + 1
    } else {
        rows1
    };
    if rows2 >= 1 {
        rows2
    } else {
        1
    }
}

/// Number of rows a line of graphemes takes when word-wrapped to `width`
/// columns, as ratatui's paragraph wrapping lays it out.
pub open spec fn wrapped_rows(syms: Seq<Seq<char>>, width: int) -> int {
    wrap_finish(wrap_fold(syms, syms.len() as int, width))
}

/// Sum of a sequence of widths.
pub open spec fn seq_sum(s: Seq<int>) -> int
    decreases s.len(),
{
    if s.len() == 0 {
        0
    } else {
        s[0] + seq_sum(s.drop_first())
    }
}

pub proof fn lemma_seq_sum_push(s: Seq<int>, x: int)
    ensures
        seq_sum(s.push(x)) == seq_sum(s) + x,
    decreases s.len(),
{
    if s.len() == 0 {
        assert(s.push(x).drop_first() =~= Seq::<int>::empty());
        reveal_with_fuel(seq_sum, 2);
    } else {
        assert(s.push(x).drop_first() =~= s.drop_first().push(x));
        lemma_seq_sum_push(s.drop_first(), x);
    }
}

/// Whether the state's numbers are consistent: the whitespace width is the
/// sum of its nonnegative pending pieces, and all widths are nonnegative.
pub open spec fn wrap_ok(st: WrapState) -> bool {
    &&& st.line_width >= 0
    &&& st.word_width >= 0
    &&& st.whitespace_width == seq_sum(st.pending_whitespace)
    &&& forall|i: int| 0 <= i < st.pending_whitespace.len() ==> st.pending_whitespace[i] >= 0
    &&& st.rows >= 0
}

pub proof fn lemma_pop_fitting(pending: Seq<int>, total: int, remaining: int)
    requires
        total == seq_sum(pending),
        forall|i: int| 0 <= i < pending.len() ==> pending[i] >= 0,
    ensures
        ({
            let (p, t) = pop_fitting(pending, total, remaining);
            &&& t == seq_sum(p)
            &&& 0 <= t <= total
            &&& forall|i: int| 0 <= i < p.len() ==> p[i] >= 0
            &&& p.len() <= pending.len()
        }),
    decreases pending.len(),
{
    if pending.len() > 0 {
        assert(seq_sum(pending.drop_first()) >= 0) by {
            lemma_seq_sum_nonneg(pending.drop_first());
        }
        if pending[0] <= remaining {
            lemma_pop_fitting(pending.drop_first(), total - pending[0], remaining - pending[0]);
        }
    }
}

pub proof fn lemma_seq_sum_nonneg(s: Seq<int>)
    requires
        forall|i: int| 0 <= i < s.len() ==> s[i] >= 0,
    ensures
        seq_sum(s) >= 0,
    decreases s.len(),
{
    if s.len() > 0 {
        lemma_seq_sum_nonneg(s.drop_first());
    }
}

/// One step keeps the state consistent, raises the widths' sum by at most
/// `w`, and adds at most one row.
pub proof fn lemma_wrap_step(st: WrapState, is_ws: bool, w: int, width: int)
    requires
        wrap_ok(st),
        0 <= w,
        0 <= width,
    ensures
        wrap_ok(wrap_step(st, is_ws, w, width)),
        ({
            let s = wrap_step(st, is_ws, w, width);
            &&& s.line_width + s.word_width + s.whitespace_width <= st.line_width + st.word_width
                + st.whitespace_width + w
            &&& st.rows <= s.rows <= st.rows + 1
        }),
{
    if w <= width {
        let word_found = st.non_whitespace_previous && is_ws;
        let untrimmed_overflow = st.pending_line_empty && st.word_width + st.whitespace_width + w
            > width;
        reveal_with_fuel(seq_sum, 1);
        assert(seq_sum(Seq::<int>::empty()) == 0);
        lemma_seq_sum_nonneg(st.pending_whitespace);
        let lw1 = if st.pending_whitespace.len() > 0 {
            st.line_width + st.whitespace_width
        } else {
            st.line_width
        };
        let s1 = if word_found || untrimmed_overflow {
            WrapState {
                line_width: if !st.pending_word_empty {
                    lw1 + st.word_width
                } else {
                    lw1
                },
                pending_line_empty: if !st.pending_word_empty {
                    false
                } else {
                    if st.pending_whitespace.len() > 0 {
                        false
                    } else {
                        st.pending_line_empty
                    }
                },
                pending_word_empty: true,
                pending_whitespace: Seq::empty(),
                whitespace_width: 0,
                word_width: 0,
                ..st
            }
        } else {
            st
        };
        assert(wrap_ok(s1));
        let remaining = if width > s1.line_width {
            width - s1.line_width
        } else {
            0
        };
        lemma_pop_fitting(s1.pending_whitespace, s1.whitespace_width, remaining);
        let popped = pop_fitting(s1.pending_whitespace, s1.whitespace_width, remaining);
        lemma_seq_sum_push(s1.pending_whitespace, w);
        lemma_seq_sum_push(popped.0, w);
    }
}

/// Folding keeps the state consistent; the widths' sum stays within the
/// widths seen, and rows within the graphemes seen.
pub proof fn lemma_wrap_fold(syms: Seq<Seq<char>>, n: int, width: int)
    requires
        0 <= n <= syms.len(),
        0 <= width,
    ensures
        wrap_ok(wrap_fold(syms, n, width)),
        ({
            let s = wrap_fold(syms, n, width);
            &&& s.line_width + s.word_width + s.whitespace_width <= n * width
            &&& s.rows <= n
        }),
    decreases n,
{
    if n == 0 {
        reveal_with_fuel(seq_sum, 1);
    } else {
        lemma_wrap_fold(syms, n - 1, width);
        let prev = wrap_fold(syms, n - 1, width);
        let w = unicode_str_width(syms[n - 1]) as int;
        lemma_wrap_step(prev, wrappable_whitespace(syms[n - 1]), w, width);
        assert((n - 1) * width <= n * width) by (nonlinear_arith)
            requires
                0 <= width,
        ;
        if w <= width {
            assert((n - 1) * width + w <= n * width) by (nonlinear_arith)
                requires
                    w <= width,
            ;
        }
    }
}

/// Rows a line of graphemes takes when word-wrapped to `width` columns.
pub fn wrapped_symbols_line_count(symbols: &Vec<String>, width: usize) -> (rows: usize)
    requires
        symbols@.len() < usize::MAX,
    ensures
        rows == wrapped_rows(symbols@.map_values(|x: String| x@), width as int),
        1 <= rows <= symbols@.len() + 1,
{
    let ghost syms = symbols@.map_values(|x: String| x@);
    let wid: u128 = width as u128;
    let mut rows: usize = 0;
    let mut line_width: u128 = 0;
    let mut word_width: u128 = 0;
    let mut whitespace_width: u128 = 0;
    let mut pending_whitespace: VecDeque<u128> = VecDeque::new();
    let mut pending_line_empty = true;
    let mut pending_word_empty = true;
    let mut non_whitespace_previous = false;
    let mut k: usize = 0;
    proof {
        reveal_with_fuel(seq_sum, 1);
    }
    while k < symbols.len()
        invariant
            syms == symbols@.map_values(|x: String| x@),
            syms.len() < usize::MAX,
            k <= syms.len(),
            wid == width,
            ({
                let st = wrap_fold(syms, k as int, width as int);
                &&& st.rows == rows
                &&& st.line_width == line_width
                &&& st.word_width == word_width
                &&& st.whitespace_width == whitespace_width
                &&& st.pending_whitespace == pending_whitespace@.map_values(|x: u128| x as int)
                &&& st.pending_line_empty == pending_line_empty
                &&& st.pending_word_empty == pending_word_empty
                &&& st.non_whitespace_previous == non_whitespace_previous
            }),
        decreases syms.len() - k,
    {
        proof {
            lemma_wrap_fold(syms, k as int, width as int);
            assert(k * width <= usize::MAX * usize::MAX) by (nonlinear_arith)
                requires
                    k <= usize::MAX,
                    width <= usize::MAX,
            ;
            assert(syms[k as int] == symbols@[k as int]@);
        }
        let ghost before = wrap_fold(syms, k as int, width as int);
        let symbol = symbols[k].as_str();
        let is_whitespace = is_wrappable_whitespace(symbol);
        let symbol_width = str_width(symbol) as u128;
        if symbol_width > wid {
            k = k + 1;
            continue;
        }
        let word_found = non_whitespace_previous && is_whitespace;
        let untrimmed_overflow = pending_line_empty && word_width + whitespace_width
            + symbol_width > wid;
        if word_found || untrimmed_overflow {
            if pending_whitespace.len() > 0 {
                pending_line_empty = false;
                line_width = line_width + whitespace_width;
            }
            if !pending_word_empty {
                pending_line_empty = false;
                line_width = line_width + word_width;
            }
            pending_word_empty = true;
            pending_whitespace.clear();
            whitespace_width = 0;
            word_width = 0;
        }
        let line_full = line_width >= wid;
        let pending_word_overflow = symbol_width > 0 && line_width + whitespace_width + word_width
            >= wid;
        let mut skip = false;
        if line_full || pending_word_overflow {
            let mut remaining: u128 = if wid > line_width {
                wid - line_width
            } else {
                0
            };
            rows = rows + 1;
            line_width = 0;
            pending_line_empty = true;
            let ghost pw0 = pending_whitespace@.map_values(|x: u128| x as int);
            let ghost ww0 = whitespace_width as int;
            let ghost rem0 = remaining as int;
            proof {
                lemma_pop_fitting(pw0, ww0, rem0);
            }
            while pending_whitespace.len() > 0 && pending_whitespace[0] <= remaining
                invariant
                    pop_fitting(pw0, ww0, rem0) == pop_fitting(
                        pending_whitespace@.map_values(|x: u128| x as int),
                        whitespace_width as int,
                        remaining as int,
                    ),
                    whitespace_width == seq_sum(pending_whitespace@.map_values(|x: u128| x as int)),
                decreases pending_whitespace@.len(),
            {
                let ghost cur = pending_whitespace@.map_values(|x: u128| x as int);
                proof {
                    lemma_seq_sum_nonneg(cur.drop_first());
                    assert(cur.drop_first() =~= pending_whitespace@.drop_first().map_values(|x: u128| x as int));
                }
                let front = pending_whitespace[0];
                whitespace_width = whitespace_width - front;
                remaining = remaining - front;
                pending_whitespace.pop_front();
            }
            if is_whitespace && pending_whitespace.len() == 0 {
                non_whitespace_previous = false;
                skip = true;
            }
        }
        if !skip {
            if is_whitespace {
                whitespace_width = whitespace_width + symbol_width;
                pending_whitespace.push_back(symbol_width);
            } else {
                word_width = word_width + symbol_width;
                pending_word_empty = false;
            }
            non_whitespace_previous = !is_whitespace;
        }
        proof {
            assert(pending_whitespace@.map_values(|x: u128| x as int) =~= wrap_fold(syms, k + 1, width as int).pending_whitespace);
        }
        k = k + 1;
    }
    proof {
        lemma_wrap_fold(syms, syms.len() as int, width as int);
    }
    if pending_line_empty && pending_word_empty && pending_whitespace.len() > 0 {
        rows = rows + 1;
        pending_whitespace.clear();
    }
    if !pending_line_empty || pending_whitespace.len() > 0 || !pending_word_empty {
        rows = rows + 1;
    }
    if rows >= 1 {
        rows
    } else {
        1
    }
}


/// Columns per line of the chat text, and the widths' upper bound used
/// below: the characters of every line plus one per line.
pub open spec fn lines_weight(lines: Seq<String>) -> int
    decreases lines.len(),
{
    if lines.len() == 0 {
        0
    } else {
        lines_weight(lines.drop_last()) + lines.last()@.len() + 1
    }
}

/// Total rows of lines of text word-wrapped to `width` columns
/// (none at width zero).
pub open spec fn wrapped_total(lines: Seq<String>, width: int) -> int
    decreases lines.len(),
{
    if width == 0 || lines.len() == 0 {
        0
    } else {
        wrapped_total(lines.drop_last(), width) + wrapped_rows(graphemes(lines.last()@), width)
    }
}

/// Rows the lines of text take when word-wrapped to `width` columns.
pub fn wrapped_line_count(lines: &Vec<String>, width: usize) -> (rows: usize)
    requires
        lines_weight(lines@) <= usize::MAX,
    ensures
        rows == wrapped_total(lines@, width as int),
{
    if width == 0 {
        return 0;
    }
    let mut total: usize = 0;
    let mut i: usize = 0;
    while i < lines.len()
        invariant
            width > 0,
            i <= lines@.len(),
            lines_weight(lines@) <= usize::MAX,
            total == wrapped_total(lines@.take(i as int), width as int),
            total <= lines_weight(lines@.take(i as int)),
        decreases lines@.len() - i,
    {
        proof {
            let t = lines@.take(i + 1);
            assert(t.drop_last() =~= lines@.take(i as int));
            assert(t.last() == lines@[i as int]);
            lemma_lines_weight_prefix(lines@, i + 1);
        }
        let syms = line_graphemes(lines[i].as_str());
        let rows = wrapped_symbols_line_count(&syms, width);
        total = total + rows;
        i = i + 1;
    }
    assert(lines@.take(lines@.len() as int) =~= lines@);
    total
}

pub proof fn lemma_lines_weight_prefix(s: Seq<String>, i: int)
    requires
        0 <= i <= s.len(),
    ensures
        lines_weight(s.take(i)) <= lines_weight(s),
    decreases s.len() - i,
{
    if i < s.len() {
        lemma_lines_weight_prefix(s, i + 1);
        assert(s.take(i + 1).drop_last() =~= s.take(i));
    } else {
        assert(s.take(i) =~= s);
    }
}

/// Index of the first line feed of `s`, or -1.
pub open spec fn newline_index(s: Seq<char>) -> int
    decreases s.len(),
{
    if s.len() == 0 {
        -1
    } else if s[0] == '\n' {
        0
    } else {
        let r = newline_index(s.drop_first());
        if r < 0 {
            -1
        } else {
            r + 1
        }
    }
}

pub proof fn lemma_newline_index(s: Seq<char>)
    ensures
        -1 <= newline_index(s) < s.len(),
        newline_index(s) >= 0 ==> s[newline_index(s)] == '\n',
        forall|j: int| 0 <= j < s.len() && (newline_index(s) < 0 || j < newline_index(s)) ==> s[j]
            != '\n',
    decreases s.len(),
{
    if s.len() > 0 && s[0] != '\n' {
        lemma_newline_index(s.drop_first());
        assert forall|j: int| 0 <= j < s.len() && (newline_index(s) < 0 || j < newline_index(s))
            implies s[j] != '\n' by {
            if j > 0 {
                assert(s[j] == s.drop_first()[j - 1]);
            }
        }
    }
}

/// A line without the carriage return that ended it.
pub open spec fn strip_cr(s: Seq<char>) -> Seq<char> {
    if s.len() > 0 && s.last() == '\r' {
        s.drop_last()
    } else {
        s
    }
}

/// The lines of a text, as `str::lines` splits it: at each line feed, a
/// carriage return before it dropped, with no empty line after a final
/// line feed.
pub open spec fn text_lines(s: Seq<char>) -> Seq<Seq<char>>
    decreases s.len(),
{
    if s.len() == 0 {
        Seq::empty()
    } else {
        let i = newline_index(s);
        if i < 0 {
            seq![s]
        } else {
            proof {
                lemma_newline_index(s);
            }
            seq![strip_cr(s.take(i))] + text_lines(s.skip(i + 1))
        }
    }
}

/// What a chat line shows.
#[derive(Debug, Clone, Copy, PartialEq, Eq, Structural)]
pub enum ChatLineKind {
    /// The author's name in brackets.
    Header,
    /// A line of the message's text.
    Body,
    /// The blank line after a message.
    Separator,
}

/// One line of the chat panel, with the message it belongs to.
#[derive(Debug)]
pub struct ChatLine {
    pub text: String,
    pub kind: ChatLineKind,
    pub message_index: usize,
}

/// The mathematical content of a chat line.
pub struct ChatLineView {
    pub text: Seq<char>,
    pub kind: ChatLineKind,
    pub message_index: int,
}

impl View for ChatLine {
    type V = ChatLineView;

    open spec fn view(&self) -> ChatLineView {
        ChatLineView { text: self.text@, kind: self.kind, message_index: self.message_index as int }
    }
}

/// The body lines of a message's text: each line indented by two spaces,
/// with wrap hints between wide glyphs.
pub open spec fn body_lines(lines: Seq<Seq<char>>, idx: int) -> Seq<ChatLineView>
    decreases lines.len(),
{
    if lines.len() == 0 {
        Seq::empty()
    } else {
        body_lines(lines.drop_last(), idx).push(
            ChatLineView { text: "  "@ + cjk_hinted(lines.last()), kind: ChatLineKind::Body, message_index: idx },
        )
    }
}

/// The chat lines of one message: `[name]`, the body lines (a lone indent
/// for an empty text), then a blank line.
pub open spec fn message_lines(m: ChatMessage, idx: int) -> Seq<ChatLineView> {
    seq![ChatLineView { text: "["@ + m.character_name@ + "]"@, kind: ChatLineKind::Header, message_index: idx }]
        + body_lines(text_lines(m.content@), idx) + (if m.content@.len() == 0 {
        seq![ChatLineView { text: "  "@, kind: ChatLineKind::Body, message_index: idx }]
    } else {
        Seq::empty()
    }) + seq![ChatLineView { text: Seq::empty(), kind: ChatLineKind::Separator, message_index: idx }]
}

/// The chat lines of the first `n` messages.
pub open spec fn chat_lines_spec(ms: Seq<ChatMessage>, n: int) -> Seq<ChatLineView>
    decreases n,
{
    if n <= 0 {
        Seq::empty()
    } else {
        chat_lines_spec(ms, n - 1) + message_lines(ms[n - 1], n - 1)
    }
}

/// The views of a sequence of chat lines.
pub open spec fn line_views(s: Seq<ChatLine>) -> Seq<ChatLineView> {
    s.map_values(|l: ChatLine| l@)
}

fn push_line(out: &mut Vec<ChatLine>, line: ChatLine)
    ensures
        line_views(final(out)@) == line_views(old(out)@).push(line@),
{
    out.push(line);
    assert(line_views(out@) =~= line_views(old(out)@).push(line@));
}

/// The characters `s[from..to]` as a new string.
fn sub_string(s: &str, from: usize, to: usize) -> (r: String)
    requires
        from <= to <= s@.len(),
    ensures
        r@ == s@.subrange(from as int, to as int),
{
    String::from_str(s.substring_char(from, to))
}

/// The lines of a text, as `str::lines` splits it.
pub fn split_lines(s: &str) -> (lines: Vec<String>)
    ensures
        lines@.map_values(|x: String| x@) == text_lines(s@),
{
    let n = s.unicode_len();
    let mut out: Vec<String> = Vec::new();
    let mut start: usize = 0;
    assert(s@.skip(0) =~= s@);
    assert(out@.map_values(|x: String| x@) + text_lines(s@) =~= text_lines(s@));
    loop
        invariant
            n == s@.len(),
            start <= n,
            out@.map_values(|x: String| x@) + text_lines(s@.skip(start as int)) == text_lines(s@),
        decreases n - start,
    {
        if start == n {
            assert(s@.skip(start as int) =~= Seq::<char>::empty());
            assert(out@.map_values(|x: String| x@) + Seq::<Seq<char>>::empty() =~= out@.map_values(|x: String| x@));
            return out;
        }
        let ghost rest = s@.skip(start as int);
        let mut i = start;
        while i < n && s.get_char(i) != '\n'
            invariant
                n == s@.len(),
                start <= i <= n,
                rest == s@.skip(start as int),
                forall|j: int| start <= j < i ==> s@[j] != '\n',
            decreases n - i,
        {
            i = i + 1;
        }
        proof {
            lemma_newline_index(rest);
            let k = newline_index(rest);
            if i < n {
                assert(rest[i - start] == '\n');
                if k < 0 || k > i - start {
                    assert(rest[i - start] != '\n');
                }
                if k < i - start {
                    assert(rest[k] == s@[start + k]);
                }
                assert(k == i - start);
            } else {
                if k >= 0 {
                    assert(rest[k] == s@[start + k]);
                }
                assert(k < 0);
            }
        }
        if i < n {
            let mut end = i;
            if end > start && s.get_char(end - 1) == '\r' {
                end = end - 1;
            }
            let line = sub_string(s, start, end);
            assert(line@ =~= strip_cr(rest.take(i - start)));
            let ghost before = out@.map_values(|x: String| x@);
            out.push(line);
            assert(out@.map_values(|x: String| x@) =~= before.push(line@));
            assert(rest.skip(i - start + 1) =~= s@.skip(i + 1));
            assert(before.push(line@) + text_lines(s@.skip(i + 1)) =~= before + (seq![line@]
                + text_lines(s@.skip(i + 1))));
            start = i + 1;
        } else {
            let line = sub_string(s, start, n);
            assert(line@ =~= rest);
            let ghost before = out@.map_values(|x: String| x@);
            out.push(line);
            assert(out@.map_values(|x: String| x@) =~= before.push(line@));
            assert(before.push(line@) =~= before + seq![rest]);
            return out;
        }
    }
}

/// Concatenation of two texts.
fn concat3(a: &str, b: &str, c: &str) -> (r: String)
    ensures
        r@ == a@ + b@ + c@,
{
    let mut s = String::from_str(a);
    s.append(b);
    s.append(c);
    s
}

/// The lines the chat panel shows for the messages, in order.
pub fn chat_lines(messages: &Vec<ChatMessage>) -> (lines: Vec<ChatLine>)
    ensures
        line_views(lines@) == chat_lines_spec(messages@, messages@.len() as int),
{
    let mut out: Vec<ChatLine> = Vec::new();
    let mut i: usize = 0;
    while i < messages.len()
        invariant
            i <= messages@.len(),
            line_views(out@) == chat_lines_spec(messages@, i as int),
        decreases messages@.len() - i,
    {
        let msg = &messages[i];
        let ghost before = line_views(out@);
        push_line(
            &mut out,
            ChatLine {
                text: concat3("[", msg.character_name.as_str(), "]"),
                kind: ChatLineKind::Header,
                message_index: i,
            },
        );
        let texts = split_lines(msg.content.as_str());
        let ghost tl = texts@.map_values(|x: String| x@);
        let ghost after_header = line_views(out@);
        let mut j: usize = 0;
        while j < texts.len()
            invariant
                j <= texts@.len(),
                tl == texts@.map_values(|x: String| x@),
                line_views(out@) == after_header + body_lines(tl.take(j as int), i as int),
            decreases texts@.len() - j,
        {
            let hinted = add_cjk_wrap_hints(texts[j].as_str());
            let mut text = String::from_str("  ");
            text.append(hinted.as_str());
            proof {
                assert(tl.take(j + 1).drop_last() =~= tl.take(j as int));
                assert(tl.take(j + 1).last() == texts@[j as int]@);
            }
            push_line(&mut out, ChatLine { text, kind: ChatLineKind::Body, message_index: i });
            j = j + 1;
        }
        assert(tl.take(texts@.len() as int) =~= tl);
        if msg.content.as_str().unicode_len() == 0 {
            push_line(
                &mut out,
                ChatLine { text: String::from_str("  "), kind: ChatLineKind::Body, message_index: i },
            );
        }
        push_line(
            &mut out,
            ChatLine { text: String::new(), kind: ChatLineKind::Separator, message_index: i },
        );
        assert(line_views(out@) =~= chat_lines_spec(messages@, i + 1));
        i = i + 1;
    }
    out
}

/// `a - b`, or zero when `b` is larger.
pub open spec fn sat_sub(a: int, b: int) -> int {
    if a >= b {
        a - b
    } else {
        0
    }
}

/// First row of the chat panel to show: the bottom rows when the panel is
/// not scrolled, else that position moved up by the scroll offset (the
/// count then cut to 16 bits, as the panel's scroll takes it).
pub open spec fn chat_scroll_spec(total: int, inner_height: int, scroll_offset: int) -> u16 {
    if scroll_offset == 0 {
        sat_sub(total, inner_height) as u16
    } else {
        sat_sub(sat_sub(total, inner_height), scroll_offset) as u16
    }
}

/// First row of the chat panel to show.
pub fn chat_scroll(total_visual_lines: usize, inner_height: usize, scroll_offset: u16) -> (s: u16)
    ensures
        s == chat_scroll_spec(total_visual_lines as int, inner_height as int, scroll_offset as int),
{
    let base = if total_visual_lines >= inner_height {
        total_visual_lines - inner_height
    } else {
        0
    };
    if scroll_offset == 0 {
        base as u16
    } else {
        let o = scroll_offset as usize;
        (if base >= o {
            base - o
        } else {
            0
        }) as u16
    }
}

/// Column of the input cursor: the display width of the text before it,
/// cut to 16 bits.
pub fn input_cursor_column(input: &str, cursor_position: usize) -> (col: u16)
    ensures
        col == unicode_str_width(
            input@.take(
                if cursor_position <= input@.len() {
                    cursor_position as int
                } else {
                    input@.len() as int
                },
            ),
        ) as u16,
{
    let n = input.unicode_len();
    let k = if cursor_position <= n {
        cursor_position
    } else {
        n
    };
    let before = input.substring_char(0, k);
    assert(before@ =~= input@.take(k as int));
    str_width(before) as u16
}


/// The text of the story bar.
pub open spec fn story_bar_spec(title: Seq<char>, scene: Seq<char>, count: nat, loading: bool) -> Seq<char> {
    " "@ + title + " | Scene: "@ + scene + " | Messages: "@ + crate::text::decimal(count) + if loading {
        " | Thinking..."@
    } else {
        Seq::empty()
    }
}

/// The text of the story bar: title, scene, message count, and whether a
/// reply is awaited.
pub fn story_bar_text(title: &str, scene: &str, message_count: usize, is_loading: bool) -> (s: String)
    ensures
        s@ == story_bar_spec(title@, scene@, message_count as nat, is_loading),
{
    let mut s = String::from_str(" ");
    s.append(title);
    s.append(" | Scene: ");
    s.append(scene);
    s.append(" | Messages: ");
    let digits = crate::text::usize_to_decimal(message_count);
    s.append(digits.as_str());
    if is_loading {
        s.append(" | Thinking...");
    } else {
        assert(s@ + Seq::<char>::empty() =~= s@);
    }
    s
}

} // verus!
