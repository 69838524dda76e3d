use research_assistant::consumer::chunk_read_error;
use research_assistant::consumer::ConsumeError;
use research_assistant::prompts::{final_prompt, keyword_prompt};
use research_assistant::status_is_success;
use research_assistant::text::{clean_snippet, split_lines, trim_ascii};

#[test]
fn status_range_is_2xx() {
    assert!(status_is_success(200));
    assert!(status_is_success(204));
    assert!(status_is_success(299));
    assert!(!status_is_success(199));
    assert!(!status_is_success(300));
    assert!(!status_is_success(404));
    assert!(!status_is_success(500));
}

#[test]
fn split_lines_matches_str_lines() {
    let cases = [
        "",
        "one",
        "one\n",
        "one\ntwo",
        "one\ntwo\n",
        "one\r\ntwo\r\n",
        "\n\n",
        "a\n\nb",
        "ends with cr\r",
    ];
    for case in cases {
        let got = split_lines(case);
        let want: Vec<String> = case.lines().map(|l| l.to_string()).collect();
        assert_eq!(got, want);
    }
}

#[test]
fn trim_ascii_matches_trim_on_ascii_input() {
    let cases = ["", "  ", "x", "  x", "x  ", "\t x \r\n", "a b", " [DONE] "];
    for case in cases {
        assert_eq!(trim_ascii(case), case.trim());
    }
}

#[test]
fn clean_snippet_drops_blank_lines_and_rejoins() {
    assert_eq!(clean_snippet("a\n\n   \nb\n", 500), "a\nb");
    assert_eq!(clean_snippet("\n\n", 500), "");
    assert_eq!(clean_snippet("only", 500), "only");
}

#[test]
fn clean_snippet_truncates_to_limit() {
    assert_eq!(clean_snippet("abcdefgh", 3), "abc");
    let long = "x".repeat(600);
    assert_eq!(clean_snippet(&long, 500).chars().count(), 500);
}

#[test]
fn keyword_prompt_embeds_the_query() {
    assert_eq!(
        keyword_prompt("rust verifier"),
        "Based on the following user query, generate 3-5 concise search keywords suitable for a web search engine. Return only the keywords, comma-separated. User query: \"rust verifier\"",
    );
}

#[test]
fn final_prompt_embeds_query_and_summary() {
    let p = final_prompt("q", "s");
    assert_eq!(
        p,
        "Based on your existing knowledge and the following web search results, please provide a comprehensive answer to the user's original query. \n\nUser Query: \"q\"\n\nWeb Search Results:\ns\n\nYour Answer:",
    );
}

#[test]
fn chunk_read_error_carries_its_context() {
    let e = chunk_read_error("stream read");
    match e {
        ConsumeError::ChunkReadFailed { context } => assert_eq!(context, "stream read"),
        _ => panic!("expected ChunkReadFailed"),
    }
}
