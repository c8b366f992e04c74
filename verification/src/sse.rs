//! Decoding of a streamed answer (server-sent events): the byte stream is
//! cut into lines, `data: ` lines carry JSON events or the `[DONE]` marker,
//! and the text of the events is accumulated into the whole answer. The
//! caller reads the bytes, parses each JSON event and hands it back.

use vstd::prelude::*;
use crate::layout::{newline_index, lemma_newline_index};
use crate::llm::StreamChatCompletionChunk;
use crate::text::{trim, trim_str};
use crate::traits::StreamChunk;

verus! {

/// The text of bytes decoded as UTF-8, each invalid sequence replaced by
/// U+FFFD (`String::from_utf8_lossy`).
pub uninterp spec fn utf8_lossy(b: Seq<u8>) -> Seq<char>;

/// `String::from_utf8_lossy`: decodes bytes as UTF-8, replacing invalid
/// sequences; valid UTF-8 decodes to exactly its characters.
#[verifier::external_body]
fn decode_lossy(bytes: &[u8]) -> (s: String)
    ensures
        s@ == utf8_lossy(bytes@),
        vstd::utf8::valid_utf8(bytes@) ==> s@ == vstd::utf8::decode_utf8(bytes@),
{
    String::from_utf8_lossy(bytes).into_owned()
}

/// A line of interest of the event stream.
#[derive(Debug)]
pub enum SseEvent {
    /// The `[DONE]` marker: the answer is complete.
    Done,
    /// The JSON text of an event.
    Payload(String),
}

/// The mathematical content of a stream event.
pub enum SseEventView {
    Done,
    Payload(Seq<char>),
}

impl View for SseEvent {
    type V = SseEventView;

    open spec fn view(&self) -> SseEventView {
        match self {
            SseEvent::Done => SseEventView::Done,
            SseEvent::Payload(s) => SseEventView::Payload(s@),
        }
    }
}

/// Whether a trimmed line carries data.
pub open spec fn is_data_line(line: Seq<char>) -> bool {
    line.len() >= 6 && line.take(6) == "data: "@
}

/// The event of a trimmed data line.
pub open spec fn data_event(line: Seq<char>) -> SseEventView {
    let data = line.skip(6);
    if data == "[DONE]"@ {
        SseEventView::Done
    } else {
        SseEventView::Payload(data)
    }
}

/// The next event among the complete lines of `buf`, and what is left of
/// the buffer after its line. Lines that are blank, comments (`:`) or not
/// data are passed over; without a complete data line, there is no event
/// and only the incomplete last line is left.
pub open spec fn scan(buf: Seq<char>) -> (Option<SseEventView>, Seq<char>)
    decreases buf.len(),
{
    let i = newline_index(buf);
    if i < 0 {
        (None, buf)
    } else {
        proof {
            lemma_newline_index(buf);
        }
        let line = trim(buf.take(i));
        let rest = buf.skip(i + 1);
        if is_data_line(line) {
            (Some(data_event(line)), rest)
        } else {
            scan(rest)
        }
    }
}

/// A newline already in `a` is still the first one after more text is
/// appended.
proof fn lemma_newline_index_append(a: Seq<char>, b: Seq<char>)
    requires
        newline_index(a) >= 0,
    ensures
        newline_index(a + b) == newline_index(a),
    decreases a.len(),
{
    if a[0] != '\n' {
        assert((a + b).drop_first() =~= a.drop_first() + b);
        lemma_newline_index_append(a.drop_first(), b);
    }
}

/// Text received after an event's line changes neither that event nor what
/// is left after it: an event is decoded as soon as its line is complete,
/// however the stream was cut into reads.
pub proof fn law_event_ignores_later_text(buf: Seq<char>, more: Seq<char>)
    requires
        scan(buf).0 is Some,
    ensures
        scan(buf + more).0 == scan(buf).0,
        scan(buf + more).1 == scan(buf).1 + more,
    decreases buf.len(),
{
    let i = newline_index(buf);
    lemma_newline_index(buf);
    lemma_newline_index_append(buf, more);
    let whole = buf + more;
    assert(whole.take(i) =~= buf.take(i));
    assert(whole.skip(i + 1) =~= buf.skip(i + 1) + more);
    if !is_data_line(trim(buf.take(i))) {
        law_event_ignores_later_text(buf.skip(i + 1), more);
    }
}

/// State of a stream being decoded.
#[derive(Debug)]
pub struct SseDecoder {
    /// Text of all the deltas so far.
    pub accumulated: String,
    /// Received text not yet cut into lines.
    pub buffer: String,
}

/// Whether `s[i..]` starts with `p`.
fn has_prefix_at(s: &str, p: &str) -> (b: bool)
    ensures
        b == (s@.len() >= p@.len() && s@.take(p@.len() as int) == p@),
{
    let n = s.unicode_len();
    let m = p.unicode_len();
    if n < m {
        return false;
    }
    let mut k: usize = 0;
    while k < m
        invariant
            n == s@.len(),
            m == p@.len(),
            m <= n,
            k <= m,
            forall|j: int| 0 <= j < k ==> s@[j] == p@[j],
        decreases m - k,
    {
        if s.get_char(k) != p.get_char(k) {
            assert(s@.take(m as int)[k as int] != p@[k as int]);
            return false;
        }
        k = k + 1;
    }
    assert(s@.take(m as int) =~= p@);
    true
}

/// The new text an event carries: its first choice's delta, if any.
pub open spec fn delta_text(chunk: StreamChatCompletionChunk) -> Seq<char> {
    if chunk.choices@.len() > 0 {
        match chunk.choices@[0].delta.content {
            Some(t) => t@,
            None => Seq::empty(),
        }
    } else {
        Seq::empty()
    }
}

/// What applying an event does to a decoder, and the chunks it sends: the
/// first choice's new text is accumulated and sent as a delta; a finish
/// reason then completes the answer and ends the stream. An event without
/// choices does nothing.
pub open spec fn chunk_effect(
    before: SseDecoder,
    chunk: StreamChatCompletionChunk,
    after: SseDecoder,
    r: (Vec<StreamChunk>, bool),
) -> bool {
    if chunk.choices@.len() == 0 {
        r.0@.len() == 0 && !r.1 && after == before
    } else {
        let ch = chunk.choices@[0];
        &&& after.accumulated@ == before.accumulated@ + delta_text(chunk)
        &&& after.buffer == before.buffer
        &&& r.1 == (ch.finish_reason is Some)
        &&& r.0@.len() == (if ch.delta.content is Some { 1int } else { 0 }) + (if r.1 { 1int } else { 0 })
        &&& ch.delta.content matches Some(t) ==> (r.0@[0] matches StreamChunk::Delta(d) && d == t)
        &&& r.1 ==> (r.0@.last() matches StreamChunk::Done { content, usage } && content
            == after.accumulated && usage is None)
    }
}

/// The text of all the events, in order.
pub open spec fn all_delta_text(chunks: Seq<StreamChatCompletionChunk>) -> Seq<char>
    decreases chunks.len(),
{
    if chunks.len() == 0 {
        Seq::empty()
    } else {
        all_delta_text(chunks.drop_last()) + delta_text(chunks.last())
    }
}

/// The answer a decoder accumulates is the text of every event applied to
/// it, in order.
pub proof fn law_answer_is_every_delta(
    decoders: Seq<SseDecoder>,
    chunks: Seq<StreamChatCompletionChunk>,
    results: Seq<(Vec<StreamChunk>, bool)>,
)
    requires
        decoders.len() == chunks.len() + 1,
        results.len() == chunks.len(),
        forall|k: int|
            0 <= k < chunks.len() ==> chunk_effect(
                #[trigger] decoders[k],
                chunks[k],
                decoders[k + 1],
                results[k],
            ),
    ensures
        decoders.last().accumulated@ == decoders[0].accumulated@ + all_delta_text(chunks),
    decreases chunks.len(),
{
    if chunks.len() == 0 {
        assert(decoders[0].accumulated@ + Seq::<char>::empty() =~= decoders[0].accumulated@);
    } else {
        let n = chunks.len() - 1;
        law_answer_is_every_delta(decoders.drop_last(), chunks.drop_last(), results.drop_last());
        assert(chunk_effect(decoders[n], chunks[n], decoders[n + 1], results[n]));
        assert(decoders.drop_last().last() == decoders[n]);
        assert(decoders[0].accumulated@ + all_delta_text(chunks) =~= decoders[0].accumulated@
            + all_delta_text(chunks.drop_last()) + delta_text(chunks.last()));
    }
}

impl SseDecoder {
    /// A decoder before any byte.
    pub fn new() -> (d: Self)
        ensures
            d.accumulated@.len() == 0,
            d.buffer@.len() == 0,
    {
        SseDecoder { accumulated: String::new(), buffer: String::new() }
    }

    /// Adds received bytes, decoded as UTF-8 with replacement.
    pub fn push_bytes(&mut self, bytes: &[u8])
        ensures
            final(self).buffer@ == old(self).buffer@ + utf8_lossy(bytes@),
            final(self).accumulated == old(self).accumulated,
    {
        let text = decode_lossy(bytes);
        self.buffer.append(text.as_str());
    }

    /// Takes the next event out of the complete lines received.
    pub fn next_event(&mut self) -> (e: Option<SseEvent>)
        ensures
            match e {
                Some(ev) => scan(old(self).buffer@).0 == Some(ev@),
                None => scan(old(self).buffer@).0 is None,
            },
            final(self).buffer@ == scan(old(self).buffer@).1,
            final(self).accumulated == old(self).accumulated,
    {
        loop
            invariant
                scan(old(self).buffer@) == scan(self.buffer@),
                self.accumulated == old(self).accumulated,
            decreases self.buffer@.len(),
        {
            let ghost buf = self.buffer@;
            proof {
                lemma_newline_index(buf);
            }
            let n = self.buffer.as_str().unicode_len();
            let mut i: usize = 0;
            while i < n && self.buffer.as_str().get_char(i) != '\n'
                invariant
                    n == self.buffer@.len(),
                    buf == self.buffer@,
                    i <= n,
                    forall|j: int| 0 <= j < i ==> buf[j] != '\n',
                decreases n - i,
            {
                i = i + 1;
            }
            if i == n {
                assert(newline_index(buf) < 0) by {
                    if newline_index(buf) >= 0 {
                        assert(buf[newline_index(buf)] == '\n');
                    }
                }
                return None;
            }
            assert(newline_index(buf) == i) by {
                let k = newline_index(buf);
                if k < 0 || k > i {
                    assert(buf[i as int] == '\n');
                }
                if 0 <= k < i {
                    assert(buf[k] == '\n');
                }
            }
            let line = trim_str(self.buffer.as_str().substring_char(0, i));
            let rest = String::from_str(self.buffer.as_str().substring_char(i + 1, n));
            assert(line@ == trim(buf.take(i as int))) by {
                assert(self.buffer@.subrange(0, i as int) =~= buf.take(i as int));
            }
            assert(rest@ =~= buf.skip(i + 1));
            proof {
                reveal_strlit("data: ");
            }
            if has_prefix_at(line, "data: ") {
                let m = line.unicode_len();
                let data = line.substring_char(6, m);
                assert(data@ =~= line@.skip(6));
                let ev = if crate::command::strs_equal(data, "[DONE]") {
                    SseEvent::Done
                } else {
                    SseEvent::Payload(String::from_str(data))
                };
                self.buffer = rest;
                return Some(ev);
            }
            self.buffer = rest;
        }
    }

    /// The completed answer: all the text so far.
    pub fn done_chunk(&self) -> (c: StreamChunk)
        ensures
            c matches StreamChunk::Done { content, usage } && content == self.accumulated && usage
                is None,
    {
        StreamChunk::Done { content: self.accumulated.clone(), usage: None }
    }

    /// Applies a parsed event: the first choice's new text, if any, is
    /// accumulated and sent as a delta; a finish reason then completes the
    /// answer. Returns the chunks to send and whether the stream is over.
    pub fn apply_chunk(&mut self, chunk: &StreamChatCompletionChunk) -> (r: (Vec<StreamChunk>, bool))
        ensures
            chunk_effect(*old(self), *chunk, *final(self), r),
    {
        let mut out: Vec<StreamChunk> = Vec::new();
        if chunk.choices.len() == 0 {
            return (out, false);
        }
        let choice = &chunk.choices[0];
        match &choice.delta.content {
            Some(t) => {
                self.accumulated.append(t.as_str());
                out.push(StreamChunk::Delta(t.clone()));
            },
            None => {},
        }
        if choice.finish_reason.is_some() {
            out.push(self.done_chunk());
            return (out, true);
        }
        (out, false)
    }

    /// What is sent when the byte stream ends without the `[DONE]` marker:
    /// the completed answer, if any text arrived.
    pub fn finish(&self) -> (c: Option<StreamChunk>)
        ensures
            self.accumulated@.len() == 0 ==> c is None,
            self.accumulated@.len() > 0 ==> (c matches Some(StreamChunk::Done { content, usage })
                && content == self.accumulated && usage is None),
    {
        if self.accumulated.as_str().unicode_len() == 0 {
            None
        } else {
            Some(self.done_chunk())
        }
    }
}

} // verus!
