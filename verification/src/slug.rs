//! Slugs: the path segment under which a profile is published.
//!
//! A slug is made from whatever the user typed, often a whole address, by
//! [`normalize_slug`]. The rules are applied in a fixed order; each rule is a
//! specification function of its own and [`slug_candidate`] chains them.

use crate::errors::{AppError, ErrorKind};
use crate::text::{
    ascii_lower, char_is_digit, char_is_lower, char_is_space, chars_eq, chars_of, is_ascii_char,
    is_digit, is_lower, is_space, leading, lemma_trim_is_piece, lemma_trim_keeps, lowercase,
    lowercased, slice_of, starts_with, string_of, trim, Trim, trim_of,
};
use vstd::prelude::*;

verus! {

/// A character that may occur in a slug: `a`..`z`, `0`..`9` or the dash.
pub open spec fn is_slug_char(c: char) -> bool {
    is_lower(c) || is_digit(c) || c == '-'
}

/// `s` without one leading `https://` or, failing that, one leading `http://`.
pub open spec fn without_protocol(s: Seq<char>) -> Seq<char> {
    if "https://"@.is_prefix_of(s) {
        s.skip("https://"@.len() as int)
    } else if "http://"@.is_prefix_of(s) {
        s.skip("http://"@.len() as int)
    } else {
        s
    }
}

/// `s` without one leading `www.`.
pub open spec fn without_www(s: Seq<char>) -> Seq<char> {
    if "www."@.is_prefix_of(s) {
        s.skip("www."@.len() as int)
    } else {
        s
    }
}

/// What stands before the first `/` of `s`; all of `s` where it has none.
pub open spec fn first_segment(s: Seq<char>) -> Seq<char>
    decreases s.len(),
{
    if s.len() == 0 || s[0] == '/' {
        Seq::empty()
    } else {
        seq![s[0]] + first_segment(s.drop_first())
    }
}

/// `s` with every `.` replaced by a dash.
pub open spec fn dots_to_dashes(s: Seq<char>) -> Seq<char> {
    s.map_values(|c: char| if c == '.' { '-' } else { c })
}

/// `s` with every run of white space replaced by one dash.
pub open spec fn runs_to_dashes(s: Seq<char>) -> Seq<char>
    decreases s.len(),
{
    if s.len() == 0 {
        Seq::empty()
    } else if is_space(s[0]) {
        if s.len() >= 2 && is_space(s[1]) {
            runs_to_dashes(s.drop_first())
        } else {
            seq!['-'] + runs_to_dashes(s.drop_first())
        }
    } else {
        seq![s[0]] + runs_to_dashes(s.drop_first())
    }
}

/// The words of `s`, which white space separates, joined by single dashes:
/// white space at the two ends goes, each run of it in between becomes a dash.
pub open spec fn whitespace_to_dashes(s: Seq<char>) -> Seq<char> {
    runs_to_dashes(trim_of(s, Trim::Whitespace))
}

/// The slug characters of `s`, in order, with each `_` turned into a dash and
/// every other character left out.
pub open spec fn filtered(s: Seq<char>) -> Seq<char>
    decreases s.len(),
{
    if s.len() == 0 {
        Seq::empty()
    } else if is_slug_char(s[0]) {
        seq![s[0]] + filtered(s.drop_first())
    } else if s[0] == '_' {
        seq!['-'] + filtered(s.drop_first())
    } else {
        filtered(s.drop_first())
    }
}

/// `s` with every run of dashes shortened to one dash.
pub open spec fn collapsed(s: Seq<char>) -> Seq<char>
    decreases s.len(),
{
    if s.len() == 0 {
        Seq::empty()
    } else if s.len() >= 2 && s[0] == '-' && s[1] == '-' {
        collapsed(s.drop_first())
    } else {
        seq![s[0]] + collapsed(s.drop_first())
    }
}

/// The paths that the service itself answers; none of them can be a slug.
pub open spec fn is_reserved(s: Seq<char>) -> bool {
    ||| s == "login"@
    ||| s == "logout"@
    ||| s == "register"@
    ||| s == "dashboard"@
    ||| s == "api"@
    ||| s == "static"@
    ||| s == "favicon.ico"@
}

/// What the rules make of the input `raw`, before it is tested for being
/// empty or reserved. In order: trim white space and lower the case; strip
/// the protocol; strip `www.`; keep the first path segment; turn dots into
/// dashes; join the words by dashes; keep slug characters only, with `_` as a
/// dash; shorten runs of dashes; trim dashes.
pub open spec fn slug_candidate(raw: Seq<char>) -> Seq<char> {
    let host = first_segment(
        without_www(without_protocol(lowercased(trim_of(raw, Trim::Whitespace)))),
    );
    let dashed = whitespace_to_dashes(dots_to_dashes(host));
    trim_of(collapsed(filtered(dashed)), Trim::Dashes)
}

/// The slug made from `raw`, or `None` where the rules leave nothing or leave
/// a reserved word.
pub open spec fn normalized(raw: Seq<char>) -> Option<Seq<char>> {
    let candidate = slug_candidate(raw);
    if candidate.len() == 0 || is_reserved(candidate) {
        None
    } else {
        Some(candidate)
    }
}

/// A well-formed slug: not empty, of slug characters only, with no dash at
/// either end and no two dashes in a row, and not a reserved word.
pub open spec fn is_slug(s: Seq<char>) -> bool {
    &&& s.len() > 0
    &&& forall|i: int| 0 <= i < s.len() ==> is_slug_char(#[trigger] s[i])
    &&& s[0] != '-'
    &&& s.last() != '-'
    &&& forall|i: int| 0 <= i < s.len() - 1 ==> !(#[trigger] s[i] == '-' && s[i + 1] == '-')
    &&& !is_reserved(s)
}

/// Whether `c` may occur in a slug.
pub fn char_is_slug_char(c: char) -> (b: bool)
    ensures
        b == is_slug_char(c),
{
    char_is_lower(c) || char_is_digit(c) || c == '-'
}

fn strip_protocol(s: Vec<char>) -> (out: Vec<char>)
    ensures
        out@ == without_protocol(s@),
{
    let https = chars_of("https://");
    let http = chars_of("http://");
    if starts_with(&s, &https) {
        slice_of(&s, https.len(), s.len())
    } else if starts_with(&s, &http) {
        slice_of(&s, http.len(), s.len())
    } else {
        s
    }
}

fn strip_www(s: Vec<char>) -> (out: Vec<char>)
    ensures
        out@ == without_www(s@),
{
    let www = chars_of("www.");
    if starts_with(&s, &www) {
        slice_of(&s, www.len(), s.len())
    } else {
        s
    }
}

fn take_first_segment(s: &Vec<char>) -> (out: Vec<char>)
    ensures
        out@ == first_segment(s@),
{
    let mut out: Vec<char> = Vec::new();
    let mut i: usize = 0;
    assert(s@.skip(0) == s@);
    while i < s.len() && s[i] != '/'
        invariant
            i <= s.len(),
            first_segment(s@) == out@ + first_segment(s@.skip(i as int)),
        decreases s.len() - i,
    {
        let ghost rest = s@.skip(i as int);
        assert(rest.drop_first() == s@.skip(i + 1));
        assert(out@.push(s@[i as int]) + first_segment(rest.drop_first()) == out@ + (seq![
            rest[0],
        ] + first_segment(rest.drop_first())));
        out.push(s[i]);
        i += 1;
    }
    assert(out@ + Seq::<char>::empty() == out@);
    out
}

fn replace_dots(s: &Vec<char>) -> (out: Vec<char>)
    ensures
        out@ == dots_to_dashes(s@),
{
    let mut out: Vec<char> = Vec::new();
    let mut i: usize = 0;
    while i < s.len()
        invariant
            i <= s.len(),
            out@ == dots_to_dashes(s@.take(i as int)),
        decreases s.len() - i,
    {
        let c = s[i];
        out.push(if c == '.' { '-' } else { c });
        i += 1;
        assert(out@ == dots_to_dashes(s@.take(i as int)));
    }
    assert(s@.take(s.len() as int) == s@);
    out
}

fn replace_runs(s: &Vec<char>) -> (out: Vec<char>)
    ensures
        out@ == runs_to_dashes(s@),
{
    let mut out: Vec<char> = Vec::new();
    let mut i: usize = 0;
    assert(s@.skip(0) == s@);
    while i < s.len()
        invariant
            i <= s.len(),
            runs_to_dashes(s@) == out@ + runs_to_dashes(s@.skip(i as int)),
        decreases s.len() - i,
    {
        let ghost rest = s@.skip(i as int);
        let ghost before = out@;
        assert(rest.drop_first() == s@.skip(i + 1));
        let c = s[i];
        if char_is_space(c) {
            if i + 1 < s.len() && char_is_space(s[i + 1]) {
            } else {
                out.push('-');
                assert(before.push('-') + runs_to_dashes(rest.drop_first()) == before + (seq!['-']
                    + runs_to_dashes(rest.drop_first())));
            }
        } else {
            out.push(c);
            assert(before.push(c) + runs_to_dashes(rest.drop_first()) == before + (seq![c]
                + runs_to_dashes(rest.drop_first())));
        }
        i += 1;
    }
    assert(out@ + Seq::<char>::empty() == out@);
    out
}

fn join_words(s: &Vec<char>) -> (out: Vec<char>)
    ensures
        out@ == whitespace_to_dashes(s@),
{
    let inner = trim(s, Trim::Whitespace);
    replace_runs(&inner)
}

fn filter_chars(s: &Vec<char>) -> (out: Vec<char>)
    ensures
        out@ == filtered(s@),
{
    let mut out: Vec<char> = Vec::new();
    let mut i: usize = 0;
    assert(s@.skip(0) == s@);
    while i < s.len()
        invariant
            i <= s.len(),
            filtered(s@) == out@ + filtered(s@.skip(i as int)),
        decreases s.len() - i,
    {
        let ghost rest = s@.skip(i as int);
        let ghost before = out@;
        assert(rest.drop_first() == s@.skip(i + 1));
        let c = s[i];
        if char_is_slug_char(c) {
            out.push(c);
            assert(before.push(c) + filtered(rest.drop_first()) == before + (seq![c] + filtered(
                rest.drop_first(),
            )));
        } else if c == '_' {
            out.push('-');
            assert(before.push('-') + filtered(rest.drop_first()) == before + (seq!['-']
                + filtered(rest.drop_first())));
        }
        i += 1;
    }
    assert(out@ + Seq::<char>::empty() == out@);
    out
}

fn collapse_dashes(s: &Vec<char>) -> (out: Vec<char>)
    ensures
        out@ == collapsed(s@),
{
    let mut out: Vec<char> = Vec::new();
    let mut i: usize = 0;
    assert(s@.skip(0) == s@);
    while i < s.len()
        invariant
            i <= s.len(),
            collapsed(s@) == out@ + collapsed(s@.skip(i as int)),
        decreases s.len() - i,
    {
        let ghost rest = s@.skip(i as int);
        let ghost before = out@;
        assert(rest.drop_first() == s@.skip(i + 1));
        let c = s[i];
        if c == '-' && i + 1 < s.len() && s[i + 1] == '-' {
        } else {
            out.push(c);
            assert(before.push(c) + collapsed(rest.drop_first()) == before + (seq![c] + collapsed(
                rest.drop_first(),
            )));
        }
        i += 1;
    }
    assert(out@ + Seq::<char>::empty() == out@);
    out
}

fn reserved(s: &Vec<char>) -> (b: bool)
    ensures
        b == is_reserved(s@),
{
    chars_eq(s, &chars_of("login")) || chars_eq(s, &chars_of("logout")) || chars_eq(
        s,
        &chars_of("register"),
    ) || chars_eq(s, &chars_of("dashboard")) || chars_eq(s, &chars_of("api")) || chars_eq(
        s,
        &chars_of("static"),
    ) || chars_eq(s, &chars_of("favicon.ico"))
}

/// Makes a slug from what the user typed.
///
/// Returns the slug that the rules produce, see [`slug_candidate`]. Fails with
/// `InvalidInput` where they leave nothing (`Invalid slug`) and where what
/// they leave is a reserved word (`Slug is reserved`).
pub fn normalize_slug(raw: &str) -> (r: Result<String, AppError>)
    ensures
        match r {
            Ok(slug) => normalized(raw@) == Some(slug@) && is_slug(slug@),
            Err(e) => normalized(raw@) is None && e.kind() == ErrorKind::InvalidInput
                && e.message() == (if slug_candidate(raw@).len() == 0 {
                "Invalid slug"@
            } else {
                "Slug is reserved"@
            }),
        },
{
    let typed = chars_of(raw);
    let lowered = lowercase(&trim(&typed, Trim::Whitespace));
    let host = take_first_segment(&strip_www(strip_protocol(lowered)));
    let dashed = join_words(&replace_dots(&host));
    let slug = trim(&collapse_dashes(&filter_chars(&dashed)), Trim::Dashes);
    if slug.len() == 0 {
        return Err(AppError::InvalidInput("Invalid slug".to_owned()));
    }
    if reserved(&slug) {
        return Err(AppError::InvalidInput("Slug is reserved".to_owned()));
    }
    proof {
        lemma_normalized_is_slug(raw@);
    }
    Ok(string_of(&slug))
}

/// Filtering leaves slug characters only.
pub proof fn lemma_filtered_chars(s: Seq<char>)
    ensures
        forall|i: int| 0 <= i < filtered(s).len() ==> is_slug_char(#[trigger] filtered(s)[i]),
    decreases s.len(),
{
    if s.len() > 0 {
        let rest = filtered(s.drop_first());
        lemma_filtered_chars(s.drop_first());
        assert forall|i: int| 0 <= i < filtered(s).len() implies is_slug_char(
            #[trigger] filtered(s)[i],
        ) by {
            if filtered(s).len() > rest.len() && i > 0 {
                assert(filtered(s)[i] == rest[i - 1]);
            }
        }
    }
}

/// Collapsing keeps what kind of characters a text is made of, keeps its first
/// character, and leaves no two dashes in a row.
pub proof fn lemma_collapsed_chars(s: Seq<char>)
    requires
        forall|i: int| 0 <= i < s.len() ==> is_slug_char(#[trigger] s[i]),
    ensures
        forall|i: int| 0 <= i < collapsed(s).len() ==> is_slug_char(#[trigger] collapsed(s)[i]),
        s.len() > 0 ==> collapsed(s).len() > 0 && collapsed(s)[0] == s[0],
        forall|i: int|
            0 <= i < collapsed(s).len() - 1 ==> !(#[trigger] collapsed(s)[i] == '-' && collapsed(
                s,
            )[i + 1] == '-'),
    decreases s.len(),
{
    if s.len() > 0 {
        let rest = s.drop_first();
        assert forall|i: int| 0 <= i < rest.len() implies is_slug_char(#[trigger] rest[i]) by {
            assert(rest[i] == s[i + 1]);
        }
        lemma_collapsed_chars(rest);
        if s.len() >= 2 && s[0] == '-' && s[1] == '-' {
            assert(rest[0] == s[1]);
        } else {
            let out = collapsed(s);
            assert(out == seq![s[0]] + collapsed(rest));
            assert forall|i: int| 0 <= i < out.len() - 1 implies !(#[trigger] out[i] == '-'
                && out[i + 1] == '-') by {
                if i == 0 {
                    assert(out[1] == collapsed(rest)[0]);
                    assert(rest[0] == s[1]);
                } else {
                    assert(out[i] == collapsed(rest)[i - 1]);
                    assert(out[i + 1] == collapsed(rest)[i]);
                }
            }
            assert forall|i: int| 0 <= i < out.len() implies is_slug_char(#[trigger] out[i]) by {
                if i > 0 {
                    assert(out[i] == collapsed(rest)[i - 1]);
                }
            }
        }
    }
}

/// Whatever was typed, the slug made from it is well formed.
pub proof fn lemma_normalized_is_slug(raw: Seq<char>)
    ensures
        normalized(raw) matches Some(slug) ==> is_slug(slug),
{
    let host = first_segment(
        without_www(without_protocol(lowercased(trim_of(raw, Trim::Whitespace)))),
    );
    let dashed = whitespace_to_dashes(dots_to_dashes(host));
    let kept = filtered(dashed);
    let short = collapsed(kept);
    let slug = trim_of(short, Trim::Dashes);
    lemma_filtered_chars(dashed);
    lemma_collapsed_chars(kept);
    let bounds = lemma_trim_is_piece(short, Trim::Dashes);
    if slug.len() > 0 {
        assert forall|i: int| 0 <= i < slug.len() implies is_slug_char(#[trigger] slug[i]) by {
            assert(slug[i] == short[bounds.0 + i]);
        }
        assert forall|i: int| 0 <= i < slug.len() - 1 implies !(#[trigger] slug[i] == '-' && slug[i
            + 1] == '-') by {
            assert(slug[i] == short[bounds.0 + i]);
            assert(slug[i + 1] == short[bounds.0 + i + 1]);
        }
    }
}

/// A text without a `/` is its own first segment.
proof fn lemma_first_segment_keeps(s: Seq<char>)
    requires
        forall|i: int| 0 <= i < s.len() ==> #[trigger] s[i] != '/',
    ensures
        first_segment(s) == s,
    decreases s.len(),
{
    if s.len() > 0 {
        let rest = s.drop_first();
        assert forall|i: int| 0 <= i < rest.len() implies #[trigger] rest[i] != '/' by {
            assert(rest[i] == s[i + 1]);
        }
        lemma_first_segment_keeps(rest);
        assert(seq![s[0]] + rest == s);
    } else {
        assert(s == Seq::<char>::empty());
    }
}

/// A text without white space has no runs of it to replace.
proof fn lemma_runs_keeps(s: Seq<char>)
    requires
        forall|i: int| 0 <= i < s.len() ==> !is_space(#[trigger] s[i]),
    ensures
        runs_to_dashes(s) == s,
    decreases s.len(),
{
    if s.len() > 0 {
        let rest = s.drop_first();
        assert forall|i: int| 0 <= i < rest.len() implies !is_space(#[trigger] rest[i]) by {
            assert(rest[i] == s[i + 1]);
        }
        lemma_runs_keeps(rest);
        assert(seq![s[0]] + rest == s);
    } else {
        assert(s == Seq::<char>::empty());
    }
}

/// Filtering keeps a text of slug characters as it is.
proof fn lemma_filtered_keeps(s: Seq<char>)
    requires
        forall|i: int| 0 <= i < s.len() ==> is_slug_char(#[trigger] s[i]),
    ensures
        filtered(s) == s,
    decreases s.len(),
{
    if s.len() > 0 {
        let rest = s.drop_first();
        assert forall|i: int| 0 <= i < rest.len() implies is_slug_char(#[trigger] rest[i]) by {
            assert(rest[i] == s[i + 1]);
        }
        lemma_filtered_keeps(rest);
        assert(seq![s[0]] + rest == s);
    } else {
        assert(s == Seq::<char>::empty());
    }
}

/// Collapsing keeps a text without two dashes in a row as it is.
proof fn lemma_collapsed_keeps(s: Seq<char>)
    requires
        forall|i: int| 0 <= i < s.len() - 1 ==> !(#[trigger] s[i] == '-' && s[i + 1] == '-'),
    ensures
        collapsed(s) == s,
    decreases s.len(),
{
    if s.len() > 0 {
        let rest = s.drop_first();
        assert forall|i: int| 0 <= i < rest.len() - 1 implies !(#[trigger] rest[i] == '-'
            && rest[i + 1] == '-') by {
            assert(rest[i] == s[i + 1]);
            assert(rest[i + 1] == s[i + 2]);
        }
        lemma_collapsed_keeps(rest);
        assert(seq![s[0]] + rest == s);
        assert(!(s[0] == '-' && s[0int + 1] == '-') || s.len() < 2);
    } else {
        assert(s == Seq::<char>::empty());
    }
}

/// A well-formed slug is what the rules make of it: normalising changes
/// nothing.
pub proof fn lemma_slug_is_fixed_point(slug: Seq<char>)
    requires
        is_slug(slug),
    ensures
        normalized(slug) == Some(slug),
{
    assert forall|i: int| 0 <= i < slug.len() implies !is_space(#[trigger] slug[i])
        && is_ascii_char(slug[i]) && ascii_lower(slug[i]) == slug[i] && slug[i] != '/' && slug[i]
        != '.' && slug[i] != ':' by {
        assert(is_slug_char(slug[i]));
    }
    lemma_trim_keeps(slug, Trim::Whitespace);
    assert(lowercased(slug) == slug);
    assert(without_protocol(slug) == slug) by {
        reveal_strlit("https://");
        reveal_strlit("http://");
        if "https://"@.is_prefix_of(slug) {
            assert(slug.subrange(0, 8)[5] == slug[5]);
        }
        if "http://"@.is_prefix_of(slug) {
            assert(slug.subrange(0, 7)[4] == slug[4]);
        }
    }
    assert(without_www(slug) == slug) by {
        reveal_strlit("www.");
        if "www."@.is_prefix_of(slug) {
            assert(slug.subrange(0, 4)[3] == slug[3]);
        }
    }
    lemma_first_segment_keeps(slug);
    assert(dots_to_dashes(slug) == slug);
    lemma_runs_keeps(slug);
    lemma_filtered_keeps(slug);
    lemma_collapsed_keeps(slug);
    lemma_trim_keeps(slug, Trim::Dashes);
}

/// Normalising twice gives what normalising once gives: the slug made from
/// any input is made again from itself.
pub proof fn lemma_normalize_idempotent(raw: Seq<char>)
    ensures
        normalized(raw) matches Some(slug) ==> normalized(slug) == Some(slug),
{
    lemma_normalized_is_slug(raw);
    if let Some(slug) = normalized(raw) {
        lemma_slug_is_fixed_point(slug);
    }
}

} // verus!
