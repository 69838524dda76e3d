//! The incremental stream consumer.
//!
//! One [`StreamConsumer`] lives for the consumption of one response
//! body. Each arriving byte chunk is decoded as UTF-8 (a chunk that is
//! not valid UTF-8 on its own is fatal), split into lines, and every
//! line with the `"data: "` prefix carries an event payload: the
//! `[DONE]` sentinel stops line processing for that chunk, a payload
//! that decodes yields content fragments and possibly a usage report,
//! and a payload that does not decode is skipped with a warning. Lines
//! are split per chunk: a logical line that a chunk boundary cuts in
//! half is not reassembled — each half is seen as its own (malformed)
//! line.
//!
//! The spec model is [`StreamState`]: the text accumulated so far and
//! the last usage report seen. `chunk_step` gives the exact effect of
//! one chunk on that state, and `spec_consume` the effect of a whole
//! chunk sequence.

use crate::decode::{decode_event, decode_of};
use crate::models::{OpenRouterStreamResponse, StreamChoiceView, UsageInfo};
use crate::text::{
    has_data_prefix, is_data_line, is_done_payload, payload_is_done, payload_of, spec_lines,
    spec_trim, split_lines, trim_ascii, utf8_decode,
};
use vstd::prelude::*;
use vstd::utf8::{decode_utf8, valid_utf8};

verus! {

/// Spec model of a consumer mid-run: the accumulated text and the last
/// usage report seen, if any.
pub struct StreamState {
    pub text: Seq<char>,
    pub usage: Option<UsageInfo>,
}

/// The state a fresh consumer starts in: no text, no usage.
pub open spec fn init_state() -> StreamState {
    StreamState { text: Seq::empty(), usage: None }
}

/// The content a choice contributes: its delta's text, if present.
pub open spec fn choice_content(c: StreamChoiceView) -> Seq<char> {
    match c.delta.content {
        Some(t) => t,
        None => Seq::empty(),
    }
}

/// The concatenated content of a record's choices, in order.
pub open spec fn choices_text(cs: Seq<StreamChoiceView>) -> Seq<char>
    decreases cs.len(),
{
    if cs.len() == 0 {
        Seq::empty()
    } else {
        choices_text(cs.drop_last()) + choice_content(cs.last())
    }
}

/// Applying one decoded record: append its content, and let its usage
/// report, when present, overwrite the one held so far.
pub open spec fn apply_record(st: StreamState, r: crate::models::StreamResponseView) -> StreamState {
    StreamState {
        text: st.text + choices_text(r.choices),
        usage: if r.usage is Some {
            r.usage
        } else {
            st.usage
        },
    }
}

/// The effect of one line, the sentinel aside: a line without the
/// `"data: "` prefix is ignored, and so is a payload that does not
/// decode.
pub open spec fn line_effect(st: StreamState, line: Seq<char>) -> StreamState {
    if !is_data_line(line) {
        st
    } else {
        match decode_of(payload_of(line)) {
            Some(r) => apply_record(st, r),
            None => st,
        }
    }
}

/// Is this line the stream-end sentinel?
pub open spec fn is_done_line(line: Seq<char>) -> bool {
    is_data_line(line) && is_done_payload(payload_of(line))
}

/// The effect of one chunk's lines, in order; the sentinel stops the
/// remaining lines of this chunk (and only this chunk).
pub open spec fn chunk_lines_step(st: StreamState, lines: Seq<Seq<char>>) -> StreamState
    decreases lines.len(),
{
    if lines.len() == 0 {
        st
    } else if is_done_line(lines[0]) {
        st
    } else {
        chunk_lines_step(line_effect(st, lines[0]), lines.skip(1))
    }
}

/// The effect of one decoded chunk: split it into lines and apply them.
pub open spec fn chunk_step(st: StreamState, text: Seq<char>) -> StreamState {
    chunk_lines_step(st, spec_lines(text))
}

/// The state after consuming the given chunks from `st`: `None` when
/// some chunk, reached without an earlier failure, is not valid UTF-8.
pub open spec fn consume_from(st: StreamState, chunks: Seq<Seq<u8>>) -> Option<StreamState>
    decreases chunks.len(),
{
    if chunks.len() == 0 {
        Some(st)
    } else if !valid_utf8(chunks[0]) {
        None
    } else {
        consume_from(chunk_step(st, decode_utf8(chunks[0])), chunks.skip(1))
    }
}

/// The outcome of consuming a whole chunk sequence from the start.
pub open spec fn spec_consume(chunks: Seq<Seq<u8>>) -> Option<StreamState> {
    consume_from(init_state(), chunks)
}

/// The concatenation of a fragment sequence.
pub open spec fn frags_concat(fs: Seq<Seq<char>>) -> Seq<char>
    decreases fs.len(),
{
    if fs.len() == 0 {
        Seq::empty()
    } else {
        frags_concat(fs.drop_last()) + fs.last()
    }
}

/// The fragments a record's choices contribute: the present content
/// texts, in choice order.
pub open spec fn record_frags(cs: Seq<StreamChoiceView>) -> Seq<Seq<char>>
    decreases cs.len(),
{
    if cs.len() == 0 {
        Seq::empty()
    } else {
        record_frags(cs.drop_last()) + (match cs.last().delta.content {
            Some(t) => seq![t],
            None => Seq::empty(),
        })
    }
}

/// The fragments one line contributes.
pub open spec fn line_frags(line: Seq<char>) -> Seq<Seq<char>> {
    if is_data_line(line) {
        match decode_of(payload_of(line)) {
            Some(r) => record_frags(r.choices),
            None => Seq::empty(),
        }
    } else {
        Seq::empty()
    }
}

/// The fragments one chunk's lines contribute, the sentinel stopping
/// the rest of the chunk.
pub open spec fn chunk_frags(lines: Seq<Seq<char>>) -> Seq<Seq<char>>
    decreases lines.len(),
{
    if lines.len() == 0 {
        Seq::empty()
    } else if is_done_line(lines[0]) {
        Seq::empty()
    } else {
        line_frags(lines[0]) + chunk_frags(lines.skip(1))
    }
}

/// A terminal failure of one consumption run. Protocol-level anomalies
/// (unparseable lines, a missing usage report) are not errors.
#[derive(Debug)]
pub enum ConsumeError {
    /// The response status was outside the 2xx range; `body` holds the
    /// diagnostic text that was read from the failed response.
    RequestFailed { context: String, body: String },
    /// A chunk was not valid UTF-8 on its own.
    Encoding { context: String },
    /// The transport failed while a chunk was being read.
    ChunkReadFailed { context: String },
}

/// The final result of consuming one response body.
#[derive(Debug)]
pub struct StreamOutcome {
    /// Every content fragment, concatenated in arrival order.
    pub accumulated_text: String,
    /// The last usage report seen, or `None` if the provider sent none.
    pub usage: Option<UsageInfo>,
}

impl View for StreamOutcome {
    type V = StreamState;

    open spec fn view(&self) -> StreamState {
        StreamState { text: self.accumulated_text@, usage: self.usage }
    }
}

/// What was produced while feeding one chunk.
#[derive(Debug)]
pub struct ChunkOutput {
    /// The content fragments applied by this chunk, in order: a caller
    /// that mirrors output live writes exactly these, as they come.
    pub fragments: Vec<String>,
    /// Diagnostics for lines that were skipped: the trimmed payload of
    /// each unparseable non-empty data line, and the message of each
    /// provider-embedded error object.
    pub warnings: Vec<String>,
}

/// Consumes one response body, chunk by chunk.
pub struct StreamConsumer {
    text: String,
    usage: Option<UsageInfo>,
}

impl View for StreamConsumer {
    type V = StreamState;

    closed spec fn view(&self) -> StreamState {
        StreamState { text: self.text@, usage: self.usage }
    }
}

impl StreamConsumer {
    /// A fresh consumer for one response body.
    pub fn new() -> (c: Self)
        ensures
            c@ == init_state(),
    {
        let c = StreamConsumer { text: String::new(), usage: None };
        proof {
            assert(c@.text =~= init_state().text);
        }
        c
    }

    /// Apply one decoded record: append the content of its choices in
    /// order, collect those fragments, and let a usage report overwrite
    /// the held one.
    fn apply(&mut self, rec: &OpenRouterStreamResponse, frags: &mut Vec<String>)
        ensures
            final(self)@ == apply_record(old(self)@, rec@),
            final(frags)@.map_values(|f: String| f@) =~= old(frags)@.map_values(|f: String| f@)
                + record_frags(rec@.choices),
            frags_concat(final(frags)@.map_values(|f: String| f@)) =~= frags_concat(
                old(frags)@.map_values(|f: String| f@),
            ) + choices_text(rec@.choices),
    {
        if let Some(u) = &rec.usage {
            self.usage = Some(*u);
        }
        let ghost cs = rec@.choices;
        let ghost text0 = self@.text;
        let ghost fr0 = frags@.map_values(|f: String| f@);
        let ghost conc0 = frags_concat(fr0);
        let n = rec.choices.len();
        let mut i: usize = 0;
        proof {
            assert(cs.take(0) =~= Seq::<StreamChoiceView>::empty());
            assert(text0 + choices_text(cs.take(0)) =~= text0);
            assert(conc0 + choices_text(cs.take(0)) =~= conc0);
            assert(fr0 + record_frags(cs.take(0)) =~= fr0);
        }
        while i < n
            invariant
                0 <= i <= n,
                n == rec.choices@.len(),
                cs == rec@.choices,
                self.usage == old(self).usage || self.usage == rec.usage,
                self.usage == (if rec@.usage is Some {
                    rec@.usage
                } else {
                    old(self)@.usage
                }),
                self@.text == text0 + choices_text(cs.take(i as int)),
                frags@.map_values(|f: String| f@) == fr0 + record_frags(cs.take(i as int)),
                frags_concat(frags@.map_values(|f: String| f@)) == conc0 + choices_text(
                    cs.take(i as int),
                ),
            decreases n - i,
        {
            proof {
                assert(cs.take(i as int + 1).drop_last() =~= cs.take(i as int));
                assert(cs.take(i as int + 1).last() == cs[i as int]);
                assert(cs[i as int] == rec.choices@.map_values(
                    |c: crate::models::OpenRouterStreamChoice| c@,
                )[i as int]);
            }
            if let Some(content) = &rec.choices[i].delta.content {
                self.text.append(content.as_str());
                let ghost prevfrags = frags@;
                frags.push(content.clone());
                proof {
                    let ghost m = prevfrags.map_values(|f: String| f@);
                    assert(frags@.map_values(|f: String| f@) =~= m.push(content@));
                    assert(m.push(content@).drop_last() =~= m);
                    assert(m.push(content@) =~= fr0 + record_frags(cs.take(i as int + 1)));
                }
            } else {
                proof {
                    assert(self@.text + choice_content(cs[i as int]) =~= self@.text);
                    assert(frags_concat(frags@.map_values(|f: String| f@)) + choice_content(
                        cs[i as int],
                    ) =~= frags_concat(frags@.map_values(|f: String| f@)));
                    assert(fr0 + record_frags(cs.take(i as int + 1)) =~= fr0 + record_frags(
                        cs.take(i as int),
                    ));
                }
            }
            i = i + 1;
        }
        proof {
            assert(cs.take(n as int) =~= cs);
        }
    }

    /// Feed the next byte chunk. On a chunk that is not valid UTF-8 the
    /// run fails with `Encoding` and the state is left as it was; the
    /// caller is expected to abandon the consumer. Otherwise the state
    /// advances by exactly `chunk_step`, the returned fragments are
    /// exactly the content this chunk's events carried, in order, and
    /// their concatenation is exactly the text this chunk appended.
    pub fn feed_chunk(&mut self, chunk: &[u8]) -> (r: Result<ChunkOutput, ConsumeError>)
        ensures
            valid_utf8(chunk@) ==> r is Ok && final(self)@ == chunk_step(
                old(self)@,
                decode_utf8(chunk@),
            ),
            !valid_utf8(chunk@) ==> (r matches Err(e) && e is Encoding) && final(self)@ == old(
                self,
            )@,
            r matches Ok(out) ==> out.fragments@.map_values(|f: String| f@) == chunk_frags(
                spec_lines(decode_utf8(chunk@)),
            ),
            r matches Ok(out) ==> old(self)@.text + frags_concat(
                out.fragments@.map_values(|f: String| f@),
            ) == final(self)@.text,
    {
        let s = match utf8_decode(chunk) {
            Some(s) => s,
            None => {
                return Err(
                    ConsumeError::Encoding {
                        context: "Failed to decode UTF-8 chunk".to_owned(),
                    },
                );
            },
        };
        let lines = split_lines(s);
        let ghost lviews = lines@.map_values(|l: String| l@);
        let mut frags: Vec<String> = Vec::new();
        let mut warnings: Vec<String> = Vec::new();
        let ghost st0 = self@;
        let n = lines.len();
        let mut i: usize = 0;
        proof {
            assert(lviews.skip(0) =~= lviews);
            assert(frags@.map_values(|f: String| f@) =~= Seq::<Seq<char>>::empty());
            assert(st0.text + frags_concat(frags@.map_values(|f: String| f@)) =~= st0.text);
            assert(frags@.map_values(|f: String| f@) + chunk_frags(lviews) =~= chunk_frags(
                lviews,
            ));
        }
        loop
            invariant_except_break
                0 <= i <= n,
                n == lines@.len(),
                lviews == lines@.map_values(|l: String| l@),
                chunk_lines_step(st0, lviews) == chunk_lines_step(self@, lviews.skip(i as int)),
                chunk_frags(lviews) == frags@.map_values(|f: String| f@) + chunk_frags(
                    lviews.skip(i as int),
                ),
                st0.text + frags_concat(frags@.map_values(|f: String| f@)) == self@.text,
            ensures
                self@ == chunk_lines_step(st0, lviews),
                frags@.map_values(|f: String| f@) == chunk_frags(lviews),
                st0.text + frags_concat(frags@.map_values(|f: String| f@)) == self@.text,
            decreases n - i,
        {
            if i >= n {
                proof {
                    assert(lviews.skip(i as int) =~= Seq::<Seq<char>>::empty());
                    assert(frags@.map_values(|f: String| f@) + chunk_frags(lviews.skip(i as int))
                        =~= frags@.map_values(|f: String| f@));
                }
                break;
            }
            proof {
                assert(lviews.skip(i as int)[0] == lviews[i as int]);
                assert(lviews.skip(i as int).skip(1) =~= lviews.skip(i as int + 1));
                assert(lviews[i as int] == lines@[i as int]@);
            }
            let line: &str = lines[i].as_str();
            if has_data_prefix(line) {
                let llen = line.unicode_len();
                let payload = line.substring_char(6, llen);
                proof {
                    assert(payload@ =~= payload_of(line@));
                }
                if payload_is_done(payload) {
                    proof {
                        assert(chunk_frags(lviews.skip(i as int)) =~= Seq::<Seq<char>>::empty());
                        assert(frags@.map_values(|f: String| f@) + chunk_frags(
                            lviews.skip(i as int),
                        ) =~= frags@.map_values(|f: String| f@));
                    }
                    break;
                }
                let ghost fr_before = frags@.map_values(|f: String| f@);
                match decode_event(payload) {
                    Some(rec) => {
                        // A provider-embedded error object is only a
                        // warning: the record's usage and choices still
                        // apply.
                        if let Some(err) = &rec.error {
                            warnings.push(err.message.clone());
                        }
                        self.apply(&rec, &mut frags);
                        proof {
                            assert(line_frags(lviews[i as int]) == record_frags(rec@.choices));
                            assert(fr_before + (line_frags(lviews[i as int]) + chunk_frags(
                                lviews.skip(i as int + 1),
                            )) =~= (fr_before + line_frags(lviews[i as int])) + chunk_frags(
                                lviews.skip(i as int + 1),
                            ));
                        }
                    },
                    None => {
                        let t = trim_ascii(payload);
                        if t.unicode_len() > 0 {
                            warnings.push(t.to_owned());
                        }
                        proof {
                            assert(line_frags(lviews[i as int]) =~= Seq::<Seq<char>>::empty());
                            assert(fr_before + line_frags(lviews[i as int]) =~= fr_before);
                        }
                    },
                }
            } else {
                proof {
                    assert(line_frags(lviews[i as int]) =~= Seq::<Seq<char>>::empty());
                    assert(frags@.map_values(|f: String| f@) + line_frags(lviews[i as int])
                        =~= frags@.map_values(|f: String| f@));
                }
            }
            i = i + 1;
        }
        Ok(ChunkOutput { fragments: frags, warnings })
    }

    /// Finish the run and hand the outcome over; the consumer's buffers
    /// move into it and are never reused.
    pub fn finish(self) -> (out: StreamOutcome)
        ensures
            out@ == self@,
    {
        StreamOutcome { accumulated_text: self.text, usage: self.usage }
    }
}

/// The diagnostic body a failed request reports: the text that could be
/// read from the response, or a placeholder when reading it failed.
pub open spec fn spec_failure_body(body: Option<Seq<char>>) -> Seq<char> {
    match body {
        Some(b) => b,
        None => "Unknown error reading response body"@,
    }
}

/// The terminal error for a transport failure while reading a chunk.
pub fn chunk_read_error(context: &str) -> (e: ConsumeError)
    ensures
        e matches ConsumeError::ChunkReadFailed { context: c } && c@ == context@,
{
    ConsumeError::ChunkReadFailed { context: context.to_owned() }
}

/// Consume one whole response: on a non-2xx status fail at once with
/// the diagnostic body (`failure_body` as read by the caller, `None`
/// when reading it failed); otherwise run every chunk through a fresh
/// consumer and return the accumulated text and last usage report. A
/// run over zero chunks succeeds with empty text and no usage.
pub fn consume(status: u16, failure_body: Option<String>, chunks: &Vec<Vec<u8>>, context: &str) -> (r:
    Result<StreamOutcome, ConsumeError>)
    ensures
        !(200 <= status < 300) ==> (r matches Err(e) && e matches ConsumeError::RequestFailed {
            context: c,
            body: b,
        } && c@ == context@ && b@ == spec_failure_body(
            match failure_body {
                Some(t) => Some(t@),
                None => None,
            },
        )),
        (200 <= status < 300) ==> match spec_consume(chunks@.map_values(|c: Vec<u8>| c@)) {
            Some(st) => r matches Ok(out) && out@ == st,
            None => r matches Err(e) && e is Encoding,
        },
{
    if !crate::status_is_success(status) {
        let body = match failure_body {
            Some(b) => b,
            None => "Unknown error reading response body".to_owned(),
        };
        return Err(ConsumeError::RequestFailed { context: context.to_owned(), body });
    }
    let ghost cviews = chunks@.map_values(|c: Vec<u8>| c@);
    let mut consumer = StreamConsumer::new();
    let n = chunks.len();
    let mut i: usize = 0;
    proof {
        assert(cviews.skip(0) =~= cviews);
    }
    while i < n
        invariant
            0 <= i <= n,
            200 <= status < 300,
            n == chunks@.len(),
            cviews == chunks@.map_values(|c: Vec<u8>| c@),
            spec_consume(cviews) == consume_from(consumer@, cviews.skip(i as int)),
        decreases n - i,
    {
        proof {
            assert(cviews.skip(i as int)[0] == cviews[i as int]);
            assert(cviews.skip(i as int).skip(1) =~= cviews.skip(i as int + 1));
            assert(cviews[i as int] == chunks@[i as int]@);
        }
        match consumer.feed_chunk(chunks[i].as_slice()) {
            Ok(_) => {},
            Err(e) => {
                proof {
                    assert(consume_from(consumer@, cviews.skip(i as int)) is None);
                }
                return Err(e);
            },
        }
        i = i + 1;
    }
    proof {
        assert(cviews.skip(n as int) =~= Seq::<Seq<u8>>::empty());
    }
    Ok(consumer.finish())
}

} // verus!
