//! The double-submit check against forged requests.
//!
//! A page that was served carries a token in the cookie `csrf_token`. A
//! request that changes anything must send the same token in a header.

use crate::ids::fresh_id;
use crate::text::{
    chars_of, pieces_of, slice_of, split, split_on, starts_with, str_eq, string_of, trim, trim_of,
    Trim,
};
use vstd::prelude::*;

verus! {

/// What is done with a request.
#[derive(Clone, Copy, Debug, PartialEq, Eq, Structural)]
pub enum CsrfVerdict {
    /// The request goes on; where `issue_token` holds, the response gets a
    /// cookie with a new token.
    Forward { issue_token: bool },
    /// The request is answered with status 400.
    Reject,
}

/// The token that one part of a `Cookie` header carries: what follows
/// `csrf_token=` in the part, white space at the part's ends set aside.
pub open spec fn part_token(part: Seq<char>) -> Option<Seq<char>> {
    let cookie = trim_of(part, Trim::Whitespace);
    if "csrf_token="@.is_prefix_of(cookie) {
        Some(cookie.skip("csrf_token="@.len() as int))
    } else {
        None
    }
}

/// The first token that parts of a `Cookie` header carry.
pub open spec fn first_token(parts: Seq<Seq<char>>) -> Option<Seq<char>>
    decreases parts.len(),
{
    if parts.len() == 0 {
        None
    } else {
        match part_token(parts[0]) {
            Some(token) => Some(token),
            None => first_token(parts.drop_first()),
        }
    }
}

/// The token that a `Cookie` header carries: that of the first of its parts,
/// which `;` separates, that names the cookie `csrf_token`.
pub open spec fn cookie_token(header: Option<Seq<char>>) -> Option<Seq<char>> {
    match header {
        Some(h) => first_token(split_on(h, ';')),
        None => None,
    }
}

/// What is done with a request.
///
/// A request by a safe method goes on, and gets a token where its cookies
/// carry none. Any other request goes on only if it sends a token in its
/// header and its cookies carry the same one.
pub open spec fn verdict_for(
    method_is_safe: bool,
    cookie: Option<Seq<char>>,
    header_token: Option<Seq<char>>,
) -> CsrfVerdict {
    if method_is_safe {
        CsrfVerdict::Forward { issue_token: cookie is None }
    } else if header_token is Some && cookie == header_token {
        CsrfVerdict::Forward { issue_token: false }
    } else {
        CsrfVerdict::Reject
    }
}

/// The `Set-Cookie` value that hands out `token`.
pub open spec fn token_cookie(token: Seq<char>) -> Seq<char> {
    "csrf_token="@ + token + "; Path=/; SameSite=Lax"@
}

fn token_of_part(part: &Vec<char>) -> (token: Option<String>)
    ensures
        match token {
            Some(t) => part_token(part@) == Some(t@),
            None => part_token(part@) is None,
        },
{
    let cookie = trim(part, Trim::Whitespace);
    let name = chars_of("csrf_token=");
    if starts_with(&cookie, &name) {
        Some(string_of(&slice_of(&cookie, name.len(), cookie.len())))
    } else {
        None
    }
}

/// Reads the token out of a `Cookie` header; see [`cookie_token`].
pub fn csrf_cookie_token(cookie_header: Option<&str>) -> (token: Option<String>)
    ensures
        match token {
            Some(t) => cookie_token(
                match cookie_header {
                    Some(h) => Some(h@),
                    None => None,
                },
            ) == Some(t@),
            None => cookie_token(
                match cookie_header {
                    Some(h) => Some(h@),
                    None => None,
                },
            ) is None,
        },
{
    match cookie_header {
        None => None,
        Some(header) => {
            let parts = split(&chars_of(header), ';');
            let ghost all = pieces_of(parts@);
            let mut i: usize = 0;
            assert(all.skip(0) == all);
            while i < parts.len()
                invariant
                    i <= parts.len(),
                    all == pieces_of(parts@),
                    all == split_on(header@, ';'),
                    cookie_header == Some(header),
                    first_token(all) == first_token(all.skip(i as int)),
                decreases parts.len() - i,
            {
                assert(all.skip(i as int).drop_first() == all.skip(i + 1));
                assert(all.skip(i as int)[0] == parts@[i as int]@);
                match token_of_part(&parts[i]) {
                    Some(t) => {
                        return Some(t);
                    },
                    None => {},
                }
                i += 1;
            }
            None
        },
    }
}

/// Decides what is done with a request, from whether its method is safe,
/// its `Cookie` header and the token in its `x-csrf-token` header; see
/// [`verdict_for`].
pub fn csrf_verify(method_is_safe: bool, cookie_header: Option<&str>, header_token: Option<&str>) -> (verdict:
    CsrfVerdict)
    ensures
        verdict == verdict_for(
            method_is_safe,
            cookie_token(
                match cookie_header {
                    Some(h) => Some(h@),
                    None => None,
                },
            ),
            match header_token {
                Some(t) => Some(t@),
                None => None,
            },
        ),
{
    let cookie = csrf_cookie_token(cookie_header);
    if method_is_safe {
        return CsrfVerdict::Forward { issue_token: cookie.is_none() };
    }
    match (header_token, cookie) {
        (Some(sent), Some(kept)) => {
            if str_eq(sent, kept.as_str()) {
                CsrfVerdict::Forward { issue_token: false }
            } else {
                CsrfVerdict::Reject
            }
        },
        _ => CsrfVerdict::Reject,
    }
}

/// The `Set-Cookie` value that hands out `token`.
pub fn set_cookie_value(token: &str) -> (value: String)
    ensures
        value@ == token_cookie(token@),
{
    let mut value = "csrf_token=".to_owned();
    value.append(token);
    value.append("; Path=/; SameSite=Lax");
    value
}

/// A `Set-Cookie` value that hands out a fresh random token.
pub fn issue_token_cookie() -> (value: String)
    ensures
        exists|token: Seq<char>| value@ == token_cookie(token),
{
    let token = fresh_id();
    set_cookie_value(token.as_str())
}

} // verus!
