use research_assistant::consumer::{consume, ConsumeError, StreamConsumer};

fn chunks(parts: &[&str]) -> Vec<Vec<u8>> {
    parts.iter().map(|p| p.as_bytes().to_vec()).collect()
}

#[test]
fn content_only_stream_accumulates_in_order() {
    let cs = chunks(&[
        "data: {\"choices\":[{\"index\":0,\"delta\":{\"content\":\"Hello\"}}]}\n",
        "data: {\"choices\":[{\"index\":0,\"delta\":{\"content\":\", \"}}]}\ndata: {\"choices\":[{\"index\":0,\"delta\":{\"content\":\"world\"}}]}\n",
        "data: [DONE]\n",
    ]);
    let out = consume(200, None, &cs, "test").unwrap();
    assert_eq!(out.accumulated_text, "Hello, world");
    assert!(out.usage.is_none());
}

#[test]
fn single_usage_report_is_returned_exactly() {
    let cs = chunks(&[
        "data: {\"choices\":[{\"index\":0,\"delta\":{\"content\":\"hi\"}}]}\n",
        "data: {\"choices\":[],\"usage\":{\"prompt_tokens\":5,\"completion_tokens\":7,\"total_tokens\":12}}\n",
        "data: [DONE]\n",
    ]);
    let out = consume(200, None, &cs, "test").unwrap();
    assert_eq!(out.accumulated_text, "hi");
    let usage = out.usage.unwrap();
    assert_eq!(usage.prompt_tokens, 5);
    assert_eq!(usage.completion_tokens, Some(7));
    assert_eq!(usage.total_tokens, 12);
}

#[test]
fn last_usage_report_wins() {
    let cs = chunks(&[
        "data: {\"choices\":[],\"usage\":{\"prompt_tokens\":1,\"total_tokens\":2}}\n",
        "data: {\"choices\":[],\"usage\":{\"prompt_tokens\":30,\"total_tokens\":40}}\n",
    ]);
    let out = consume(200, None, &cs, "test").unwrap();
    let usage = out.usage.unwrap();
    assert_eq!(usage.prompt_tokens, 30);
    assert_eq!(usage.completion_tokens, None);
    assert_eq!(usage.total_tokens, 40);
}

#[test]
fn split_line_across_chunks_is_not_reassembled() {
    // Documented limitation: each chunk is line-split on its own, so a
    // logical line cut by a chunk boundary becomes two malformed lines
    // and contributes nothing.
    let cs = chunks(&[
        "data: {\"cho",
        "ices\":[{\"index\":0,\"delta\":{\"content\":\"X\"}}]}\n",
    ]);
    let out = consume(200, None, &cs, "test").unwrap();
    assert_eq!(out.accumulated_text, "");
    assert!(out.usage.is_none());
}

#[test]
fn same_chunk_full_line_is_applied() {
    let cs = chunks(&["data: {\"choices\":[{\"index\":0,\"delta\":{\"content\":\"X\"}}]}\n"]);
    let out = consume(200, None, &cs, "test").unwrap();
    assert_eq!(out.accumulated_text, "X");
}

#[test]
fn non_data_line_is_ignored() {
    let cs = chunks(&[
        "note: ignore me\ndata: {\"choices\":[{\"index\":0,\"delta\":{\"content\":\"ok\"}}]}\n",
    ]);
    let out = consume(200, None, &cs, "test").unwrap();
    assert_eq!(out.accumulated_text, "ok");
}

#[test]
fn unparseable_data_line_does_not_abort() {
    let cs = chunks(&[
        "data: not-json\ndata: {\"choices\":[{\"index\":0,\"delta\":{\"content\":\"fine\"}}]}\n",
    ]);
    let out = consume(200, None, &cs, "test").unwrap();
    assert_eq!(out.accumulated_text, "fine");
}

#[test]
fn unparseable_line_is_reported_as_warning() {
    let mut c = StreamConsumer::new();
    let out = c
        .feed_chunk(b"data: not-json\ndata: {\"choices\":[{\"index\":0,\"delta\":{\"content\":\"y\"}}]}\n")
        .unwrap();
    assert_eq!(out.warnings, vec!["not-json".to_string()]);
    assert_eq!(out.fragments, vec!["y".to_string()]);
    let outcome = c.finish();
    assert_eq!(outcome.accumulated_text, "y");
}

#[test]
fn empty_payload_is_silently_ignored() {
    let mut c = StreamConsumer::new();
    let out = c.feed_chunk(b"data: \ndata:  \t \n").unwrap();
    assert!(out.warnings.is_empty());
    assert!(out.fragments.is_empty());
    assert_eq!(c.finish().accumulated_text, "");
}

#[test]
fn non_success_status_fails_with_body() {
    let cs = chunks(&[]);
    let err = consume(429, Some("rate limited".to_string()), &cs, "OpenRouter Keyword Generation")
        .unwrap_err();
    match err {
        ConsumeError::RequestFailed { context, body } => {
            assert_eq!(context, "OpenRouter Keyword Generation");
            assert_eq!(body, "rate limited");
        }
        _ => panic!("expected RequestFailed"),
    }
}

#[test]
fn non_success_status_without_body_uses_placeholder() {
    let cs = chunks(&[]);
    let err = consume(500, None, &cs, "test").unwrap_err();
    match err {
        ConsumeError::RequestFailed { body, .. } => {
            assert_eq!(body, "Unknown error reading response body");
        }
        _ => panic!("expected RequestFailed"),
    }
}

#[test]
fn empty_stream_yields_empty_outcome() {
    let cs = chunks(&[]);
    let out = consume(200, None, &cs, "test").unwrap();
    assert_eq!(out.accumulated_text, "");
    assert!(out.usage.is_none());
}

#[test]
fn invalid_utf8_chunk_is_fatal() {
    let cs = vec![vec![0xff, 0xfe, 0x20]];
    let err = consume(200, None, &cs, "test").unwrap_err();
    assert!(matches!(err, ConsumeError::Encoding { .. }));
}

#[test]
fn done_stops_only_its_own_chunk() {
    // Mirrors the documented asymmetry: the sentinel halts the rest of
    // its chunk, but a later chunk is still processed.
    let cs = chunks(&[
        "data: {\"choices\":[{\"index\":0,\"delta\":{\"content\":\"a\"}}]}\ndata: [DONE]\ndata: {\"choices\":[{\"index\":0,\"delta\":{\"content\":\"b\"}}]}\n",
        "data: {\"choices\":[{\"index\":0,\"delta\":{\"content\":\"c\"}}]}\n",
    ]);
    let out = consume(200, None, &cs, "test").unwrap();
    assert_eq!(out.accumulated_text, "ac");
}

#[test]
fn done_token_tolerates_surrounding_whitespace() {
    let cs = chunks(&[
        "data:   [DONE] \ndata: {\"choices\":[{\"index\":0,\"delta\":{\"content\":\"late\"}}]}\n",
    ]);
    let out = consume(200, None, &cs, "test").unwrap();
    assert_eq!(out.accumulated_text, "");
}

#[test]
fn fragments_match_appended_text() {
    let mut c = StreamConsumer::new();
    let out = c
        .feed_chunk(
            b"data: {\"choices\":[{\"index\":0,\"delta\":{\"content\":\"one\"}},{\"index\":1,\"delta\":{\"content\":\"two\"}}]}\n",
        )
        .unwrap();
    assert_eq!(out.fragments, vec!["one".to_string(), "two".to_string()]);
    assert_eq!(c.finish().accumulated_text, "onetwo");
}

#[test]
fn line_without_trailing_newline_is_processed() {
    let cs = chunks(&["data: {\"choices\":[{\"index\":0,\"delta\":{\"content\":\"tail\"}}]}"]);
    let out = consume(200, None, &cs, "test").unwrap();
    assert_eq!(out.accumulated_text, "tail");
}

#[test]
fn crlf_line_endings_are_handled() {
    let cs = chunks(&["data: {\"choices\":[{\"index\":0,\"delta\":{\"content\":\"win\"}}]}\r\n"]);
    let out = consume(200, None, &cs, "test").unwrap();
    assert_eq!(out.accumulated_text, "win");
}

#[test]
fn provider_error_object_warns_but_does_not_stop() {
    let mut c = StreamConsumer::new();
    let out = c
        .feed_chunk(
            b"data: {\"choices\":[{\"index\":0,\"delta\":{\"content\":\"kept\"}}],\"error\":{\"_message\":\"upstream hiccup\"}}\n",
        )
        .unwrap();
    assert_eq!(out.warnings, vec!["upstream hiccup".to_string()]);
    assert_eq!(c.finish().accumulated_text, "kept");
}
