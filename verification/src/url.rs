//! Link addresses.

use crate::text::{
    chars_of, lemma_trim_is_piece, lemma_trim_keeps, starts_with, string_of, trim, trim_of, Trim,
};
use vstd::prelude::*;

verus! {

/// Whether `s` begins with `http://` or with `https://`.
pub open spec fn has_scheme(s: Seq<char>) -> bool {
    "http://"@.is_prefix_of(s) || "https://"@.is_prefix_of(s)
}

/// The address stored for what the user typed: the input without white space
/// at its ends, with `https://` put in front unless it already begins with
/// `http://` or `https://`. Nothing else is looked at.
pub open spec fn url_of(raw: Seq<char>) -> Seq<char> {
    let typed = trim_of(raw, Trim::Whitespace);
    if has_scheme(typed) {
        typed
    } else {
        "https://"@ + typed
    }
}

/// Makes an absolute address from what the user typed. Never fails: a
/// malformed host is taken as it is.
pub fn normalize_url(raw: &str) -> (url: String)
    ensures
        url@ == url_of(raw@),
        has_scheme(url@),
{
    let typed = trim(&chars_of(raw), Trim::Whitespace);
    let https = chars_of("https://");
    if starts_with(&typed, &chars_of("http://")) || starts_with(&typed, &https) {
        string_of(&typed)
    } else {
        let mut url = https;
        let mut i: usize = 0;
        while i < typed.len()
            invariant
                i <= typed.len(),
                url@ == "https://"@ + typed@.take(i as int),
            decreases typed.len() - i,
        {
            url.push(typed[i]);
            i += 1;
            assert(url@ == "https://"@ + typed@.take(i as int));
        }
        assert(typed@.take(typed.len() as int) == typed@);
        assert(("https://"@ + typed@).subrange(0, "https://"@.len() as int) == "https://"@);
        string_of(&url)
    }
}

/// A normalised address is left as it is by normalising it again.
pub proof fn lemma_normalize_url_idempotent(raw: Seq<char>)
    ensures
        url_of(url_of(raw)) == url_of(raw),
{
    let typed = trim_of(raw, Trim::Whitespace);
    let url = url_of(raw);
    let _ = lemma_trim_is_piece(raw, Trim::Whitespace);
    reveal_strlit("https://");
    reveal_strlit("http://");
    if has_scheme(typed) {
        lemma_trim_keeps(url, Trim::Whitespace);
    } else {
        assert(url[0] == 'h');
        if typed.len() > 0 {
            assert(url.last() == typed.last());
        } else {
            assert(url == "https://"@);
        }
        lemma_trim_keeps(url, Trim::Whitespace);
        assert(url.subrange(0, "https://"@.len() as int) == "https://"@);
    }
}

} // verus!
