//! Incremental consumer for a line-delimited chat-completion event stream.
//!
//! The heart of the crate is [`consumer`]: it turns the byte chunks of a
//! streaming HTTP response body into the accumulated answer text and the
//! final token-usage report, tolerating malformed event lines without
//! aborting the run. [`decode`] parses one event payload, [`json`] holds
//! the JSON tree that payloads are read into, and [`text`] has the
//! line-splitting and trimming primitives the wire protocol needs.
//! [`laws`] proves the consumer's cross-cutting properties once and for
//! all; [`models`] holds the wire data types, and [`prompts`] the texts
//! the surrounding program sends.

use vstd::prelude::*;

pub mod consumer;
pub mod decode;
pub mod json;
pub mod laws;
pub mod models;
pub mod prompts;
pub mod text;

verus! {

/// An HTTP status code counts as success exactly when it lies in the 2xx range.
pub fn status_is_success(status: u16) -> (r: bool)
    ensures
        r == (200 <= status < 300),
{
    200 <= status && status < 300
}

} // verus!
