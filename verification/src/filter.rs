//! The list filter: a case-insensitive regular expression, or a
//! case-insensitive substring when the query is not a valid expression.
use vstd::prelude::*;
use crate::text::{concat2, lowercase, seq_contains, str_contains, to_lower};

verus! {

/// `regex::Regex::new` accepts `pattern`.
pub uninterp spec fn regex_compiles(pattern: Seq<char>) -> bool;

/// The regular expression `pattern` matches somewhere in `text`
/// (`regex::Regex::is_match`).
pub uninterp spec fn regex_finds(pattern: Seq<char>, text: Seq<char>) -> bool;

/// Compiles `pattern` with `regex::Regex::new` and, when that succeeds, asks
/// `Regex::is_match` about `text`. `None` when the pattern does not compile.
#[verifier::external_body]
fn regex_search(pattern: &str, text: &str) -> (r: Option<bool>)
    ensures
        r is Some <==> regex_compiles(pattern@),
        r matches Some(b) ==> b == regex_finds(pattern@, text@),
{
    match regex::Regex::new(pattern) {
        Ok(re) => Some(re.is_match(text)),
        Err(_) => None,
    }
}

/// The pattern the filter compiles for `query`: the query with the
/// case-insensitive flag in front.
pub open spec fn case_insensitive(query: Seq<char>) -> Seq<char> {
    seq!['(', '?', 'i', ')'] + query
}

/// Whether the filter `query` keeps `text`: an empty query keeps everything,
/// a valid expression keeps what it matches case-insensitively, and an
/// invalid one keeps text that contains it, ignoring case.
pub open spec fn query_accepts(query: Seq<char>, text: Seq<char>) -> bool {
    if query.len() == 0 {
        true
    } else if regex_compiles(case_insensitive(query)) {
        regex_finds(case_insensitive(query), text)
    } else {
        seq_contains(lowercase(text), lowercase(query))
    }
}

/// Whether the filter `query` keeps `text`.
pub fn query_matches(query: &str, text: &str) -> (r: bool)
    ensures
        r == query_accepts(query@, text@),
{
    if query.is_empty() {
        return true;
    }
    let pattern = concat2("(?i)", query);
    proof {
        reveal_strlit("(?i)");
        assert(pattern@ == case_insensitive(query@));
    }
    match regex_search(pattern.as_str(), text) {
        Some(found) => found,
        None => {
            let t = to_lower(text);
            let q = to_lower(query);
            str_contains(t.as_str(), q.as_str())
        },
    }
}

/// An empty query keeps every text.
pub proof fn law_empty_query_accepts_all(text: Seq<char>)
    ensures
        query_accepts(Seq::empty(), text),
{
}

} // verus!
