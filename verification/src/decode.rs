//! The event-record decoder: reads one event payload into an
//! [`OpenRouterStreamResponse`], or reports a non-fatal decode failure.
//!
//! The record shape is the documented wire shape: an object with a
//! required `choices` array (each element an object with a required
//! unsigned `index`, a required `delta` object with optional `content`
//! text, and an optional `finish_reason`), an optional `usage` object
//! (`prompt_tokens` and `total_tokens` required, `completion_tokens`
//! optional), and an optional embedded `error` object. Keys the shape
//! does not mention are ignored. An optional text field accepts `null`
//! as absent; a present field of the wrong shape fails the whole record.

use crate::json::{json_of, lookup, parse_json, spec_lookup, Json};
use crate::models::{
    OpenRouterError, OpenRouterStreamChoice, OpenRouterStreamDelta, OpenRouterStreamResponse,
    StreamChoiceView, StreamDeltaView, StreamResponseView, UsageInfo,
};
use vstd::prelude::*;

verus! {

/// The view of an optional string, for relating exec results to specs.
pub open spec fn opt_str_view(o: Option<String>) -> Option<Seq<char>> {
    match o {
        Some(s) => Some(s@),
        None => None,
    }
}

/// An optional text field of an object: `Some(None)` when absent or
/// `null`, `Some(Some(t))` when a string, `None` when present with any
/// other shape.
pub open spec fn spec_opt_text(fields: Seq<(String, Json)>, key: Seq<char>) -> Option<
    Option<Seq<char>>,
> {
    match spec_lookup(fields, key) {
        None => Some(None),
        Some(Json::Null) => Some(None),
        Some(Json::Text(s)) => Some(Some(s@)),
        Some(_) => None,
    }
}

/// An optional unsigned count: `Some(None)` when absent or `null`,
/// `Some(Some(n))` when an unsigned integer that fits `u32`, `None`
/// otherwise.
pub open spec fn spec_opt_u32(fields: Seq<(String, Json)>, key: Seq<char>) -> Option<Option<u32>> {
    match spec_lookup(fields, key) {
        None => Some(None),
        Some(Json::Null) => Some(None),
        Some(Json::UInt(u)) => if u <= u32::MAX {
            Some(Some(u as u32))
        } else {
            None
        },
        Some(_) => None,
    }
}

/// A required unsigned count: present, an unsigned integer, fits `u32`.
pub open spec fn spec_req_u32(fields: Seq<(String, Json)>, key: Seq<char>) -> Option<u32> {
    match spec_lookup(fields, key) {
        Some(Json::UInt(u)) => if u <= u32::MAX {
            Some(u as u32)
        } else {
            None
        },
        _ => None,
    }
}

/// One decoded choice element, or `None` when it does not fit the shape.
pub open spec fn spec_choice(j: Json) -> Option<StreamChoiceView> {
    match j {
        Json::Object(fields) => match spec_lookup(fields@, "index"@) {
            Some(Json::UInt(u)) => if u <= u32::MAX {
                match spec_lookup(fields@, "delta"@) {
                    Some(Json::Object(dfields)) => match (
                        spec_opt_text(dfields@, "content"@),
                        spec_opt_text(fields@, "finish_reason"@),
                    ) {
                        (Some(content), Some(fin)) => Some(
                            StreamChoiceView {
                                index: u as u32,
                                delta: StreamDeltaView { content },
                                finish_reason: fin,
                            },
                        ),
                        _ => None,
                    },
                    _ => None,
                }
            } else {
                None
            },
            _ => None,
        },
        _ => None,
    }
}

/// The decoded choices of an array, all elements or nothing.
pub open spec fn spec_choices(elems: Seq<Json>) -> Option<Seq<StreamChoiceView>>
    decreases elems.len(),
{
    if elems.len() == 0 {
        Some(Seq::empty())
    } else {
        match (spec_choices(elems.drop_last()), spec_choice(elems.last())) {
            (Some(cs), Some(c)) => Some(cs.push(c)),
            _ => None,
        }
    }
}

/// A decoded usage object.
pub open spec fn spec_usage(j: Json) -> Option<UsageInfo> {
    match j {
        Json::Object(fields) => match (
            spec_req_u32(fields@, "prompt_tokens"@),
            spec_req_u32(fields@, "total_tokens"@),
            spec_opt_u32(fields@, "completion_tokens"@),
        ) {
            (Some(p), Some(t), Some(c)) => Some(
                UsageInfo { prompt_tokens: p, completion_tokens: c, total_tokens: t },
            ),
            _ => None,
        },
        _ => None,
    }
}

/// The `usage` field of a record: absent or `null` means no report.
pub open spec fn spec_usage_field(fields: Seq<(String, Json)>) -> Option<Option<UsageInfo>> {
    match spec_lookup(fields, "usage"@) {
        None => Some(None),
        Some(Json::Null) => Some(None),
        Some(j) => match spec_usage(j) {
            Some(u) => Some(Some(u)),
            None => None,
        },
    }
}

/// The `error` field of a record: absent or `null` means none; an object
/// must carry a `_message` string.
pub open spec fn spec_error_field(fields: Seq<(String, Json)>) -> Option<Option<Seq<char>>> {
    match spec_lookup(fields, "error"@) {
        None => Some(None),
        Some(Json::Null) => Some(None),
        Some(Json::Object(efields)) => match spec_lookup(efields@, "_message"@) {
            Some(Json::Text(m)) => Some(Some(m@)),
            _ => None,
        },
        Some(_) => None,
    }
}

/// The record a parsed payload decodes to, or `None` when it does not
/// fit the documented shape.
pub open spec fn decode_record(j: Json) -> Option<StreamResponseView> {
    match j {
        Json::Object(fields) => match spec_lookup(fields@, "choices"@) {
            Some(Json::Array(elems)) => match (
                spec_choices(elems@),
                spec_usage_field(fields@),
                spec_error_field(fields@),
            ) {
                (Some(cs), Some(u), Some(e)) => Some(
                    StreamResponseView { choices: cs, usage: u, error: e },
                ),
                _ => None,
            },
            _ => None,
        },
        _ => None,
    }
}

/// What a payload decodes to: parse as JSON, then read the record shape.
pub open spec fn decode_of(s: Seq<char>) -> Option<StreamResponseView> {
    match json_of(s) {
        None => None,
        Some(j) => decode_record(j),
    }
}

/// Read an optional text field of an object.
fn get_opt_text(fields: &Vec<(String, Json)>, key: &str) -> (r: Option<Option<String>>)
    ensures
        r matches Some(o) ==> spec_opt_text(fields@, key@) == Some(opt_str_view(o)),
        r is None ==> spec_opt_text(fields@, key@) is None,
{
    match lookup(fields, key) {
        None => Some(None),
        Some(j) => match j {
            Json::Null => Some(None),
            Json::Text(s) => Some(Some(s.clone())),
            _ => None,
        },
    }
}

/// Read a required `u32` field of an object.
fn get_req_u32(fields: &Vec<(String, Json)>, key: &str) -> (r: Option<u32>)
    ensures
        r == spec_req_u32(fields@, key@),
{
    match lookup(fields, key) {
        Some(j) => match j {
            Json::UInt(u) => if *u <= u32::MAX as u64 {
                Some(*u as u32)
            } else {
                None
            },
            _ => None,
        },
        None => None,
    }
}

/// Read an optional `u32` field of an object.
fn get_opt_u32(fields: &Vec<(String, Json)>, key: &str) -> (r: Option<Option<u32>>)
    ensures
        r == spec_opt_u32(fields@, key@),
{
    match lookup(fields, key) {
        None => Some(None),
        Some(j) => match j {
            Json::Null => Some(None),
            Json::UInt(u) => if *u <= u32::MAX as u64 {
                Some(Some(*u as u32))
            } else {
                None
            },
            _ => None,
        },
    }
}

/// Decode one choice element.
fn extract_choice(j: &Json) -> (r: Option<OpenRouterStreamChoice>)
    ensures
        r matches Some(c) ==> spec_choice(*j) == Some(c@),
        r is None ==> spec_choice(*j) is None,
{
    match j {
        Json::Object(fields) => match lookup(fields, "index") {
            Some(ij) => match ij {
                Json::UInt(u) => if *u <= u32::MAX as u64 {
                    match lookup(fields, "delta") {
                        Some(dj) => match dj {
                            Json::Object(dfields) => match (
                                get_opt_text(dfields, "content"),
                                get_opt_text(fields, "finish_reason"),
                            ) {
                                (Some(content), Some(fin)) => Some(
                                    OpenRouterStreamChoice {
                                        index: *u as u32,
                                        delta: OpenRouterStreamDelta { content },
                                        finish_reason: fin,
                                    },
                                ),
                                _ => None,
                            },
                            _ => None,
                        },
                        None => None,
                    }
                } else {
                    None
                },
                _ => None,
            },
            None => None,
        },
        _ => None,
    }
}

/// `spec_choices` fails on the whole array as soon as it fails on a
/// prefix.
proof fn lemma_choices_none_mono(elems: Seq<Json>, i: int)
    requires
        0 <= i <= elems.len(),
        spec_choices(elems.take(i)) is None,
    ensures
        spec_choices(elems) is None,
    decreases elems.len() - i,
{
    if i < elems.len() {
        assert(elems.take(i + 1).drop_last() =~= elems.take(i));
        lemma_choices_none_mono(elems, i + 1);
    } else {
        assert(elems.take(i) =~= elems);
    }
}

/// Decode every element of the `choices` array.
fn extract_choices(elems: &Vec<Json>) -> (r: Option<Vec<OpenRouterStreamChoice>>)
    ensures
        r matches Some(v) ==> spec_choices(elems@) == Some(
            v@.map_values(|c: OpenRouterStreamChoice| c@),
        ),
        r is None ==> spec_choices(elems@) is None,
{
    let n = elems.len();
    let mut out: Vec<OpenRouterStreamChoice> = Vec::new();
    let mut i: usize = 0;
    proof {
        assert(elems@.take(0) =~= Seq::<Json>::empty());
    }
    while i < n
        invariant
            0 <= i <= n,
            n == elems@.len(),
            spec_choices(elems@.take(i as int)) == Some(
                out@.map_values(|c: OpenRouterStreamChoice| c@),
            ),
        decreases n - i,
    {
        proof {
            assert(elems@.take(i as int + 1).drop_last() =~= elems@.take(i as int));
            assert(elems@.take(i as int + 1).last() == elems@[i as int]);
        }
        match extract_choice(&elems[i]) {
            Some(c) => {
                let ghost prev = out@;
                out.push(c);
                proof {
                    assert(out@.map_values(|x: OpenRouterStreamChoice| x@) =~= prev.map_values(
                        |x: OpenRouterStreamChoice| x@,
                    ).push(c@));
                }
            },
            None => {
                proof {
                    lemma_choices_none_mono(elems@, i as int + 1);
                }
                return None;
            },
        }
        i = i + 1;
    }
    proof {
        assert(elems@.take(n as int) =~= elems@);
    }
    Some(out)
}

/// Decode the `usage` field of a record.
fn extract_usage_field(fields: &Vec<(String, Json)>) -> (r: Option<Option<UsageInfo>>)
    ensures
        r == spec_usage_field(fields@),
{
    match lookup(fields, "usage") {
        None => Some(None),
        Some(uj) => match uj {
            Json::Null => Some(None),
            Json::Object(ufields) => match (
                get_req_u32(ufields, "prompt_tokens"),
                get_req_u32(ufields, "total_tokens"),
                get_opt_u32(ufields, "completion_tokens"),
            ) {
                (Some(p), Some(t), Some(c)) => Some(
                    Some(UsageInfo { prompt_tokens: p, completion_tokens: c, total_tokens: t }),
                ),
                _ => None,
            },
            _ => None,
        },
    }
}

/// Decode the `error` field of a record.
fn extract_error_field(fields: &Vec<(String, Json)>) -> (r: Option<Option<OpenRouterError>>)
    ensures
        r matches Some(o) ==> spec_error_field(fields@) == Some(
            match o {
                Some(e) => Some(e.message@),
                None => None,
            },
        ),
        r is None ==> spec_error_field(fields@) is None,
{
    match lookup(fields, "error") {
        None => Some(None),
        Some(ej) => match ej {
            Json::Null => Some(None),
            Json::Object(efields) => match lookup(efields, "_message") {
                Some(mj) => match mj {
                    Json::Text(m) => Some(Some(OpenRouterError { message: m.clone() })),
                    _ => None,
                },
                None => None,
            },
            _ => None,
        },
    }
}

/// Decode one parsed payload into a stream record.
pub fn extract_record(j: &Json) -> (r: Option<OpenRouterStreamResponse>)
    ensures
        r matches Some(rec) ==> decode_record(*j) == Some(rec@),
        r is None ==> decode_record(*j) is None,
{
    match j {
        Json::Object(fields) => match lookup(fields, "choices") {
            Some(cj) => match cj {
                Json::Array(elems) => match (
                    extract_choices(elems),
                    extract_usage_field(fields),
                    extract_error_field(fields),
                ) {
                    (Some(choices), Some(usage), Some(error)) => Some(
                        OpenRouterStreamResponse { choices, usage, error },
                    ),
                    _ => None,
                },
                _ => None,
            },
            None => None,
        },
        _ => None,
    }
}

/// Decode one event payload: parse it as JSON and read the record shape.
/// `None` is the non-fatal decode failure: the payload is skipped and the
/// run goes on.
pub fn decode_event(payload: &str) -> (r: Option<OpenRouterStreamResponse>)
    ensures
        r matches Some(rec) ==> decode_of(payload@) == Some(rec@),
        r is None ==> decode_of(payload@) is None,
{
    match parse_json(payload) {
        None => None,
        Some(j) => extract_record(&j),
    }
}

} // verus!
