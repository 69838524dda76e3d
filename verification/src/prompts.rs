//! The prompt texts the orchestrator sends: built here so their exact
//! shape is stated and checked.

use vstd::prelude::*;

verus! {

/// The prompt asking the model for search keywords for a user query.
pub fn keyword_prompt(user_query: &str) -> (r: String)
    ensures
        r@ == "Based on the following user query, generate 3-5 concise search keywords suitable for a web search engine. Return only the keywords, comma-separated. User query: \""@
            + user_query@ + "\""@,
{
    let mut r =
        "Based on the following user query, generate 3-5 concise search keywords suitable for a web search engine. Return only the keywords, comma-separated. User query: \"".to_owned();
    r.append(user_query);
    r.append("\"");
    r
}

/// The prompt asking the model for the final answer, given the user
/// query and the summarized search results.
pub fn final_prompt(user_query: &str, search_results_summary: &str) -> (r: String)
    ensures
        r@ == "Based on your existing knowledge and the following web search results, please provide a comprehensive answer to the user's original query. \n\nUser Query: \""@
            + user_query@ + "\"\n\nWeb Search Results:\n"@ + search_results_summary@
            + "\n\nYour Answer:"@,
{
    let mut r =
        "Based on your existing knowledge and the following web search results, please provide a comprehensive answer to the user's original query. \n\nUser Query: \"".to_owned();
    r.append(user_query);
    r.append("\"\n\nWeb Search Results:\n");
    r.append(search_results_summary);
    r.append("\n\nYour Answer:");
    r
}

} // verus!
