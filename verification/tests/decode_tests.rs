use research_assistant::decode::decode_event;

#[test]
fn minimal_record_decodes() {
    let rec = decode_event("{\"choices\":[]}").unwrap();
    assert!(rec.choices.is_empty());
    assert!(rec.usage.is_none());
    assert!(rec.error.is_none());
}

#[test]
fn full_record_decodes() {
    let rec = decode_event(
        "{\"id\":\"x\",\"choices\":[{\"index\":2,\"delta\":{\"content\":\"abc\"},\"finish_reason\":\"stop\"}],\"usage\":{\"prompt_tokens\":3,\"completion_tokens\":4,\"total_tokens\":7}}",
    )
    .unwrap();
    assert_eq!(rec.choices.len(), 1);
    assert_eq!(rec.choices[0].index, 2);
    assert_eq!(rec.choices[0].delta.content.as_deref(), Some("abc"));
    assert_eq!(rec.choices[0].finish_reason.as_deref(), Some("stop"));
    let usage = rec.usage.unwrap();
    assert_eq!(usage.prompt_tokens, 3);
    assert_eq!(usage.completion_tokens, Some(4));
    assert_eq!(usage.total_tokens, 7);
}

#[test]
fn missing_choices_is_a_decode_failure() {
    assert!(decode_event("{\"usage\":{\"prompt_tokens\":1,\"total_tokens\":2}}").is_none());
}

#[test]
fn non_object_payload_is_a_decode_failure() {
    assert!(decode_event("[1,2,3]").is_none());
    assert!(decode_event("42").is_none());
    assert!(decode_event("not-json").is_none());
}

#[test]
fn null_optional_fields_read_as_absent() {
    let rec = decode_event(
        "{\"choices\":[{\"index\":0,\"delta\":{\"content\":null},\"finish_reason\":null}],\"usage\":null,\"error\":null}",
    )
    .unwrap();
    assert!(rec.choices[0].delta.content.is_none());
    assert!(rec.choices[0].finish_reason.is_none());
    assert!(rec.usage.is_none());
    assert!(rec.error.is_none());
}

#[test]
fn delta_without_content_is_accepted() {
    let rec = decode_event("{\"choices\":[{\"index\":0,\"delta\":{\"role\":\"assistant\"}}]}")
        .unwrap();
    assert!(rec.choices[0].delta.content.is_none());
}

#[test]
fn missing_delta_is_a_decode_failure() {
    assert!(decode_event("{\"choices\":[{\"index\":0}]}").is_none());
}

#[test]
fn index_out_of_u32_range_is_a_decode_failure() {
    assert!(decode_event("{\"choices\":[{\"index\":5000000000,\"delta\":{}}]}").is_none());
    assert!(decode_event("{\"choices\":[{\"index\":-1,\"delta\":{}}]}").is_none());
    assert!(decode_event("{\"choices\":[{\"index\":1.5,\"delta\":{}}]}").is_none());
}

#[test]
fn largest_u32_counts_are_accepted() {
    let rec = decode_event(
        "{\"choices\":[{\"index\":4294967295,\"delta\":{}}],\"usage\":{\"prompt_tokens\":4294967295,\"total_tokens\":4294967295}}",
    )
    .unwrap();
    assert_eq!(rec.choices[0].index, u32::MAX);
    assert_eq!(rec.usage.unwrap().prompt_tokens, u32::MAX);
    assert!(decode_event("{\"choices\":[{\"index\":4294967296,\"delta\":{}}]}").is_none());
}

#[test]
fn malformed_usage_fails_the_whole_record() {
    assert!(decode_event("{\"choices\":[],\"usage\":{\"prompt_tokens\":1}}").is_none());
    assert!(decode_event("{\"choices\":[],\"usage\":\"lots\"}").is_none());
}

#[test]
fn embedded_error_message_is_extracted() {
    let rec = decode_event("{\"choices\":[],\"error\":{\"_message\":\"boom\"}}").unwrap();
    assert_eq!(rec.error.unwrap().message, "boom");
}

#[test]
fn error_object_without_message_fails_the_record() {
    assert!(decode_event("{\"choices\":[],\"error\":{\"code\":500}}").is_none());
}

#[test]
fn unknown_keys_are_ignored() {
    let rec = decode_event(
        "{\"model\":\"m\",\"created\":123,\"choices\":[{\"index\":0,\"delta\":{\"content\":\"ok\"},\"logprobs\":null}]}",
    )
    .unwrap();
    assert_eq!(rec.choices[0].delta.content.as_deref(), Some("ok"));
}

#[test]
fn choices_keep_their_order() {
    let rec = decode_event(
        "{\"choices\":[{\"index\":1,\"delta\":{\"content\":\"b\"}},{\"index\":0,\"delta\":{\"content\":\"a\"}}]}",
    )
    .unwrap();
    assert_eq!(rec.choices[0].index, 1);
    assert_eq!(rec.choices[0].delta.content.as_deref(), Some("b"));
    assert_eq!(rec.choices[1].index, 0);
    assert_eq!(rec.choices[1].delta.content.as_deref(), Some("a"));
}

#[test]
fn escaped_text_is_unescaped_by_the_parser() {
    let rec = decode_event(
        "{\"choices\":[{\"index\":0,\"delta\":{\"content\":\"line\\nbreak \\u0041\"}}]}",
    )
    .unwrap();
    assert_eq!(rec.choices[0].delta.content.as_deref(), Some("line\nbreak A"));
}
