//! Laws of the stream consumer, stated over the spec model and proved
//! once and for all: content-only streams accumulate exactly their
//! content, the last usage report wins, lines that carry no event can be
//! dropped without changing the outcome, the sentinel stops its chunk,
//! and the empty stream yields the empty outcome.

use crate::consumer::{
    apply_record, chunk_lines_step, chunk_step, choices_text, consume_from, init_state,
    is_done_line, line_effect, spec_consume, StreamState,
};
use crate::decode::decode_of;
use crate::models::UsageInfo;
use crate::text::{is_data_line, payload_of, spec_lines};
use vstd::prelude::*;
use vstd::utf8::{decode_utf8, valid_utf8};

verus! {

/// The content one line contributes: the concatenated choice content of
/// its decoded record, or nothing when it carries no event.
pub open spec fn line_text(l: Seq<char>) -> Seq<char> {
    if is_data_line(l) {
        match decode_of(payload_of(l)) {
            Some(r) => choices_text(r.choices),
            None => Seq::empty(),
        }
    } else {
        Seq::empty()
    }
}

/// The concatenated content of a sequence of lines, in order.
pub open spec fn lines_text(lines: Seq<Seq<char>>) -> Seq<char>
    decreases lines.len(),
{
    if lines.len() == 0 {
        Seq::empty()
    } else {
        line_text(lines[0]) + lines_text(lines.skip(1))
    }
}

/// A content-only event line: a data line, not the sentinel, whose
/// payload decodes to a record without a usage report.
pub open spec fn is_content_event_line(l: Seq<char>) -> bool {
    &&& is_data_line(l)
    &&& !is_done_line(l)
    &&& match decode_of(payload_of(l)) {
        Some(r) => r.usage is None,
        None => false,
    }
}

/// A chunk all of whose lines are content-only events.
pub open spec fn chunk_content_only(c: Seq<u8>) -> bool {
    &&& valid_utf8(c)
    &&& forall|j: int|
        0 <= j < spec_lines(decode_utf8(c)).len() ==> is_content_event_line(
            #[trigger] spec_lines(decode_utf8(c))[j],
        )
}

/// The content of one chunk's lines.
pub open spec fn chunk_text(c: Seq<u8>) -> Seq<char> {
    lines_text(spec_lines(decode_utf8(c)))
}

/// The concatenated content of a sequence of chunks.
pub open spec fn chunks_text(chunks: Seq<Seq<u8>>) -> Seq<char>
    decreases chunks.len(),
{
    if chunks.len() == 0 {
        Seq::empty()
    } else {
        chunk_text(chunks[0]) + chunks_text(chunks.skip(1))
    }
}

/// Content-only lines accumulate exactly their content, in order, and
/// leave the usage report untouched.
pub proof fn lemma_content_only_lines(st: StreamState, lines: Seq<Seq<char>>)
    requires
        forall|k: int| 0 <= k < lines.len() ==> is_content_event_line(#[trigger] lines[k]),
    ensures
        chunk_lines_step(st, lines) == (StreamState {
            text: st.text + lines_text(lines),
            usage: st.usage,
        }),
    decreases lines.len(),
{
    if lines.len() == 0 {
        assert(st.text + lines_text(lines) =~= st.text);
    } else {
        let st1 = line_effect(st, lines[0]);
        assert(is_content_event_line(lines[0]));
        assert forall|k: int| 0 <= k < lines.skip(1).len() implies is_content_event_line(
            #[trigger] lines.skip(1)[k],
        ) by {
            assert(lines.skip(1)[k] == lines[k + 1]);
        }
        lemma_content_only_lines(st1, lines.skip(1));
        assert(st.text + lines_text(lines) =~= (st.text + line_text(lines[0])) + lines_text(
            lines.skip(1),
        ));
    }
}

/// When no line of `l1` is the sentinel, processing `l1 + l2` is
/// processing `l1`, then `l2`: chunk boundaries that fall on line
/// boundaries do not change the result.
pub proof fn lemma_chunk_lines_append(st: StreamState, l1: Seq<Seq<char>>, l2: Seq<Seq<char>>)
    requires
        forall|k: int| 0 <= k < l1.len() ==> !is_done_line(#[trigger] l1[k]),
    ensures
        chunk_lines_step(st, l1 + l2) == chunk_lines_step(chunk_lines_step(st, l1), l2),
    decreases l1.len(),
{
    if l1.len() == 0 {
        assert(l1 + l2 =~= l2);
    } else {
        assert((l1 + l2)[0] == l1[0]);
        assert((l1 + l2).skip(1) =~= l1.skip(1) + l2);
        assert forall|k: int| 0 <= k < l1.skip(1).len() implies !is_done_line(
            #[trigger] l1.skip(1)[k],
        ) by {
            assert(l1.skip(1)[k] == l1[k + 1]);
        }
        lemma_chunk_lines_append(line_effect(st, l1[0]), l1.skip(1), l2);
    }
}

/// The sentinel stops the remaining lines of its chunk: nothing after
/// it, in the same chunk, has any effect.
pub proof fn lemma_done_stops_lines(st: StreamState, lines: Seq<Seq<char>>, i: int)
    requires
        0 <= i < lines.len(),
        is_done_line(lines[i]),
    ensures
        chunk_lines_step(st, lines) == chunk_lines_step(st, lines.take(i)),
    decreases i,
{
    if is_done_line(lines[0]) {
        if i == 0 {
            assert(lines.take(0) =~= Seq::<Seq<char>>::empty());
        } else {
            assert(lines.take(i)[0] == lines[0]);
        }
    } else {
        assert(i > 0);
        assert(lines.take(i)[0] == lines[0]);
        assert(lines.take(i).skip(1) =~= lines.skip(1).take(i - 1));
        assert(lines.skip(1)[i - 1] == lines[i]);
        lemma_done_stops_lines(line_effect(st, lines[0]), lines.skip(1), i - 1);
    }
}

/// The usage report one line contributes, if any.
pub open spec fn line_usage(l: Seq<char>) -> Option<UsageInfo> {
    if is_data_line(l) {
        match decode_of(payload_of(l)) {
            Some(r) => r.usage,
            None => None,
        }
    } else {
        None
    }
}

/// The last usage report among the lines: a report on a later line
/// takes precedence over every earlier one.
pub open spec fn lines_last_usage(lines: Seq<Seq<char>>) -> Option<UsageInfo>
    decreases lines.len(),
{
    if lines.len() == 0 {
        None
    } else {
        match lines_last_usage(lines.skip(1)) {
            Some(u) => Some(u),
            None => line_usage(lines[0]),
        }
    }
}

/// The final usage report is the last one the lines carry — so with
/// exactly one report in the stream, that one; with several, the last —
/// and the held report stays when the lines carry none.
pub proof fn lemma_last_usage_wins(st: StreamState, lines: Seq<Seq<char>>)
    requires
        forall|k: int| 0 <= k < lines.len() ==> !is_done_line(#[trigger] lines[k]),
    ensures
        chunk_lines_step(st, lines).usage == (match lines_last_usage(lines) {
            Some(u) => Some(u),
            None => st.usage,
        }),
    decreases lines.len(),
{
    if lines.len() > 0 {
        assert(!is_done_line(lines[0]));
        assert forall|k: int| 0 <= k < lines.skip(1).len() implies !is_done_line(
            #[trigger] lines.skip(1)[k],
        ) by {
            assert(lines.skip(1)[k] == lines[k + 1]);
        }
        lemma_last_usage_wins(line_effect(st, lines[0]), lines.skip(1));
    }
}

/// A line without the `"data: "` prefix changes nothing.
pub proof fn lemma_non_data_line_ignored(st: StreamState, l: Seq<char>)
    requires
        !is_data_line(l),
    ensures
        line_effect(st, l) == st,
{
}

/// A line that carries no event — one without the prefix, or a data
/// line whose payload does not decode — can be removed from a chunk
/// without changing the result: later well-formed events still apply.
pub proof fn lemma_inert_line_removed(st: StreamState, lines: Seq<Seq<char>>, i: int)
    requires
        0 <= i < lines.len(),
        !is_done_line(lines[i]),
        is_data_line(lines[i]) ==> decode_of(payload_of(lines[i])) is None,
    ensures
        chunk_lines_step(st, lines) == chunk_lines_step(st, lines.remove(i)),
    decreases lines.len(),
{
    if is_done_line(lines[0]) {
        assert(i != 0);
        assert(lines.remove(i)[0] == lines[0]);
    } else if i == 0 {
        assert(line_effect(st, lines[0]) == st);
        assert(lines.remove(0) =~= lines.skip(1));
    } else {
        assert(lines.remove(i)[0] == lines[0]);
        assert(lines.remove(i).skip(1) =~= lines.skip(1).remove(i - 1));
        assert(lines.skip(1)[i - 1] == lines[i]);
        lemma_inert_line_removed(line_effect(st, lines[0]), lines.skip(1), i - 1);
    }
}

/// Consuming `a + b` is consuming `a`, then `b`.
pub proof fn lemma_consume_from_append(st: StreamState, a: Seq<Seq<u8>>, b: Seq<Seq<u8>>)
    ensures
        consume_from(st, a + b) == (match consume_from(st, a) {
            Some(s) => consume_from(s, b),
            None => None::<StreamState>,
        }),
    decreases a.len(),
{
    if a.len() == 0 {
        assert(a + b =~= b);
    } else {
        assert((a + b)[0] == a[0]);
        assert((a + b).skip(1) =~= a.skip(1) + b);
        if valid_utf8(a[0]) {
            lemma_consume_from_append(chunk_step(st, decode_utf8(a[0])), a.skip(1), b);
        }
    }
}

/// Chunks of content-only lines accumulate exactly their concatenated
/// content and report no usage.
pub proof fn lemma_content_only_chunks(st: StreamState, chunks: Seq<Seq<u8>>)
    requires
        forall|k: int| 0 <= k < chunks.len() ==> chunk_content_only(#[trigger] chunks[k]),
    ensures
        consume_from(st, chunks) == Some(
            StreamState { text: st.text + chunks_text(chunks), usage: st.usage },
        ),
    decreases chunks.len(),
{
    if chunks.len() == 0 {
        assert(st.text + chunks_text(chunks) =~= st.text);
    } else {
        assert(chunk_content_only(chunks[0]));
        lemma_content_only_lines(st, spec_lines(decode_utf8(chunks[0])));
        let st1 = chunk_step(st, decode_utf8(chunks[0]));
        assert forall|k: int| 0 <= k < chunks.skip(1).len() implies chunk_content_only(
            #[trigger] chunks.skip(1)[k],
        ) by {
            assert(chunks.skip(1)[k] == chunks[k + 1]);
        }
        lemma_content_only_chunks(st1, chunks.skip(1));
        assert(st.text + chunks_text(chunks) =~= (st.text + chunk_text(chunks[0])) + chunks_text(
            chunks.skip(1),
        ));
    }
}

/// A well-formed stream: chunks of content-only events, then a final
/// chunk whose lines are content-only up to the sentinel at position
/// `m`. The accumulated text is exactly the concatenation of every
/// event's content in arrival order, and no usage is reported.
pub proof fn lemma_content_only_stream(chunks: Seq<Seq<u8>>, last: Seq<u8>, m: int)
    requires
        forall|k: int| 0 <= k < chunks.len() ==> chunk_content_only(#[trigger] chunks[k]),
        valid_utf8(last),
        0 <= m < spec_lines(decode_utf8(last)).len(),
        forall|j: int|
            0 <= j < m ==> is_content_event_line(#[trigger] spec_lines(decode_utf8(last))[j]),
        is_done_line(spec_lines(decode_utf8(last))[m]),
    ensures
        spec_consume(chunks.push(last)) == Some(
            StreamState {
                text: chunks_text(chunks) + lines_text(spec_lines(decode_utf8(last)).take(m)),
                usage: None,
            },
        ),
{
    let lastlines = spec_lines(decode_utf8(last));
    let one = seq![last];
    lemma_content_only_chunks(init_state(), chunks);
    let st_mid = StreamState { text: init_state().text + chunks_text(chunks), usage: None };
    assert(consume_from(init_state(), chunks) == Some(st_mid));
    assert(chunks.push(last) =~= chunks + one);
    lemma_consume_from_append(init_state(), chunks, one);
    assert(spec_consume(chunks.push(last)) == consume_from(st_mid, one));
    assert(one.len() == 1 && one[0] == last);
    assert(one.skip(1) =~= Seq::<Seq<u8>>::empty());
    assert(consume_from(chunk_step(st_mid, decode_utf8(last)), one.skip(1)) == Some(
        chunk_step(st_mid, decode_utf8(last)),
    ));
    assert(consume_from(st_mid, one) == Some(chunk_step(st_mid, decode_utf8(last))));
    let stA = st_mid;
    lemma_done_stops_lines(stA, lastlines, m);
    assert forall|j: int| 0 <= j < lastlines.take(m).len() implies is_content_event_line(
        #[trigger] lastlines.take(m)[j],
    ) by {
        assert(lastlines.take(m)[j] == lastlines[j]);
    }
    lemma_content_only_lines(stA, lastlines.take(m));
    assert(chunk_step(stA, decode_utf8(last)) == chunk_lines_step(stA, lastlines.take(m)));
    assert(chunk_lines_step(stA, lastlines.take(m)) == StreamState {
        text: stA.text + lines_text(lastlines.take(m)),
        usage: stA.usage,
    });
    assert(stA.text + lines_text(lastlines.take(m)) =~= chunks_text(chunks) + lines_text(
        lastlines.take(m),
    ));
}

/// A chunk none of whose lines is the sentinel.
pub open spec fn chunk_has_no_done(c: Seq<u8>) -> bool {
    forall|j: int|
        0 <= j < spec_lines(decode_utf8(c)).len() ==> !is_done_line(
            #[trigger] spec_lines(decode_utf8(c))[j],
        )
}

/// The last usage report across a whole chunk sequence: a report in a
/// later chunk takes precedence.
pub open spec fn chunks_last_usage(chunks: Seq<Seq<u8>>) -> Option<UsageInfo>
    decreases chunks.len(),
{
    if chunks.len() == 0 {
        None
    } else {
        match chunks_last_usage(chunks.skip(1)) {
            Some(u) => Some(u),
            None => lines_last_usage(spec_lines(decode_utf8(chunks[0]))),
        }
    }
}

/// Across a whole stream without the sentinel, the final usage report
/// is the last one any event carried: with exactly one report in the
/// stream, that one; with several, the last in arrival order; with
/// none, whatever was held before.
pub proof fn lemma_last_usage_wins_stream(st: StreamState, chunks: Seq<Seq<u8>>)
    requires
        forall|k: int| 0 <= k < chunks.len() ==> valid_utf8(#[trigger] chunks[k]),
        forall|k: int| 0 <= k < chunks.len() ==> chunk_has_no_done(#[trigger] chunks[k]),
    ensures
        consume_from(st, chunks) matches Some(s) && s.usage == (match chunks_last_usage(chunks) {
            Some(u) => Some(u),
            None => st.usage,
        }),
    decreases chunks.len(),
{
    if chunks.len() > 0 {
        assert(valid_utf8(chunks[0]) && chunk_has_no_done(chunks[0]));
        lemma_last_usage_wins(st, spec_lines(decode_utf8(chunks[0])));
        let st1 = chunk_step(st, decode_utf8(chunks[0]));
        assert forall|k: int| 0 <= k < chunks.skip(1).len() implies valid_utf8(
            #[trigger] chunks.skip(1)[k],
        ) && chunk_has_no_done(chunks.skip(1)[k]) by {
            assert(chunks.skip(1)[k] == chunks[k + 1]);
        }
        lemma_last_usage_wins_stream(st1, chunks.skip(1));
    }
}

/// An empty byte sequence yields the empty outcome: no text, no usage,
/// and no error.
pub proof fn lemma_empty_stream()
    ensures
        spec_consume(Seq::empty()) == Some(init_state()),
{
}

} // verus!
