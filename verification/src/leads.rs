//! Leads: the addresses that visitors leave on a profile.

use crate::dates::{date_display, format_date};
use crate::errors::{AppError, ErrorKind};
use crate::ids::fresh_id;
use crate::text::{chars_of, char_is_digit, contains_char, is_digit, owned, str_eq};
use vstd::prelude::*;

verus! {

/// A stored lead, with its date as it is shown.
#[derive(Debug)]
pub struct Lead {
    pub id: String,
    pub frogol_id: String,
    pub email: String,
    pub source: Option<String>,
    pub score: Option<i64>,
    pub message: Option<String>,
    pub created_at: String,
    pub formatted_date: String,
}

/// A lead that is about to be stored.
#[derive(Debug)]
pub struct NewLead {
    pub id: String,
    pub frogol_id: String,
    pub email: String,
    pub source: Option<String>,
    pub score: Option<i64>,
    pub message: Option<String>,
}

/// A lead as the list of a profile's leads shows it.
#[derive(Debug)]
pub struct LeadSummary {
    pub id: String,
    pub email: String,
    pub source: Option<String>,
    pub score: Option<i64>,
    pub message: Option<String>,
    pub created_at: String,
    pub formatted_date: String,
}

/// The characters of an optional text.
pub open spec fn text_of(text: Option<String>) -> Option<Seq<char>> {
    match text {
        Some(t) => Some(t@),
        None => None,
    }
}

/// The characters of an optional borrowed text.
pub open spec fn str_of(text: Option<&str>) -> Option<Seq<char>> {
    match text {
        Some(t) => Some(t@),
        None => None,
    }
}

/// The score of a lead by where it came from: 100 for `direct`, 90 for
/// `referral`, 80 for `social`, 70 for anything else and for no source.
pub open spec fn score_of(source: Option<Seq<char>>) -> i64 {
    match source {
        Some(s) => if s == "direct"@ {
            100
        } else if s == "social"@ {
            80
        } else if s == "referral"@ {
            90
        } else {
            70
        },
        None => 70,
    }
}

/// Whether `email` is taken for an address: whether it holds an `@`.
pub open spec fn is_email(email: Seq<char>) -> bool {
    email.contains('@')
}

/// Scores a lead by its source; see [`score_of`].
pub fn score_for_source(source: Option<&str>) -> (score: i64)
    ensures
        score == score_of(str_of(source)),
        score == 100 || score == 90 || score == 80 || score == 70,
{
    match source {
        Some(s) => {
            if str_eq(s, "direct") {
                100
            } else if str_eq(s, "social") {
                80
            } else if str_eq(s, "referral") {
                90
            } else {
                70
            }
        },
        None => 70,
    }
}

/// Accepts an address that holds an `@` and rejects any other with
/// `InvalidInput`, `Invalid email format`.
pub fn check_email(email: &str) -> (r: Result<(), AppError>)
    ensures
        r is Ok <==> is_email(email@),
        r matches Err(e) ==> e.reports(ErrorKind::InvalidInput, "Invalid email format"@),
{
    if contains_char(&chars_of(email), '@') {
        Ok(())
    } else {
        Err(AppError::InvalidInput("Invalid email format".to_owned()))
    }
}

impl NewLead {
    /// Whether `self` is the lead captured on the profile `frogol_id` from
    /// what a visitor sent: it carries what was sent, and the score of its
    /// source.
    pub open spec fn is_capture(
        &self,
        frogol_id: Seq<char>,
        email: Seq<char>,
        source: Option<Seq<char>>,
        message: Option<Seq<char>>,
    ) -> bool {
        &&& self.frogol_id@ == frogol_id
        &&& self.email@ == email
        &&& text_of(self.source) == source
        &&& self.score == Some(score_of(source))
        &&& text_of(self.message) == message
    }

    /// The lead captured under the identifier `id`; see
    /// [`NewLead::is_capture`]. Fails as [`check_email`] does.
    pub fn with_id(
        id: String,
        frogol_id: &str,
        email: &str,
        source: Option<&str>,
        message: Option<&str>,
    ) -> (r: Result<NewLead, AppError>)
        ensures
            r is Ok <==> is_email(email@),
            r matches Ok(lead) ==> lead.id == id && lead.is_capture(
                frogol_id@,
                email@,
                str_of(source),
                str_of(message),
            ),
            r matches Err(e) ==> e.reports(ErrorKind::InvalidInput, "Invalid email format"@),
    {
        match check_email(email) {
            Err(e) => Err(e),
            Ok(()) => Ok(
                NewLead {
                    id,
                    frogol_id: frogol_id.to_owned(),
                    email: email.to_owned(),
                    source: owned(source),
                    score: Some(score_for_source(source)),
                    message: owned(message),
                },
            ),
        }
    }

    /// The lead captured from what a visitor sent, under a fresh random
    /// identifier; see [`NewLead::is_capture`]. Fails as [`check_email`]
    /// does.
    pub fn prepare(frogol_id: &str, email: &str, source: Option<&str>, message: Option<&str>) -> (r:
        Result<NewLead, AppError>)
        ensures
            r is Ok <==> is_email(email@),
            r matches Ok(lead) ==> lead.is_capture(
                frogol_id@,
                email@,
                str_of(source),
                str_of(message),
            ),
            r matches Err(e) ==> e.reports(ErrorKind::InvalidInput, "Invalid email format"@),
    {
        match check_email(email) {
            Err(e) => Err(e),
            Ok(()) => NewLead::with_id(fresh_id(), frogol_id, email, source, message),
        }
    }
}

impl Lead {
    /// The lead read from a stored row; its date is shown as
    /// [`date_display`] says.
    pub fn from_row(
        id: String,
        frogol_id: String,
        email: String,
        source: Option<String>,
        score: Option<i64>,
        message: Option<String>,
        created_at: String,
    ) -> (lead: Lead)
        ensures
            lead.id == id,
            lead.frogol_id == frogol_id,
            lead.email == email,
            lead.source == source,
            lead.score == score,
            lead.message == message,
            lead.created_at == created_at,
            lead.formatted_date@ == date_display(created_at@),
    {
        let formatted_date = format_date(created_at.as_str());
        Lead { id, frogol_id, email, source, score, message, created_at, formatted_date }
    }
}

impl LeadSummary {
    /// The summary read from a stored row; its date is shown as
    /// [`date_display`] says.
    pub fn from_row(
        id: String,
        email: String,
        source: Option<String>,
        score: Option<i64>,
        message: Option<String>,
        created_at: String,
    ) -> (lead: LeadSummary)
        ensures
            lead.id == id,
            lead.email == email,
            lead.source == source,
            lead.score == score,
            lead.message == message,
            lead.created_at == created_at,
            lead.formatted_date@ == date_display(created_at@),
    {
        let formatted_date = format_date(created_at.as_str());
        LeadSummary { id, email, source, score, message, created_at, formatted_date }
    }
}

/// The number that a text of decimal digits writes.
pub open spec fn digits_value(digits: Seq<char>) -> nat
    decreases digits.len(),
{
    if digits.len() == 0 {
        0
    } else {
        digits_value(digits.drop_last()) * 10 + ((digits.last() as u8) - 48) as nat
    }
}

/// Whether `s` is made of decimal digits only.
pub open spec fn all_digits(s: Seq<char>) -> bool {
    forall|i: int| 0 <= i < s.len() ==> is_digit(#[trigger] s[i])
}

/// The digits of a written number: what follows its sign, where it has one.
pub open spec fn unsigned_part(s: Seq<char>) -> Seq<char> {
    if s.len() > 0 && (s[0] == '-' || s[0] == '+') {
        s.skip(1)
    } else {
        s
    }
}

/// The 64-bit number that `s` writes: an optional `+` or `-` and then one or
/// more decimal digits and nothing else. `None` for any other text and for a
/// number that 64 bits cannot hold.
pub open spec fn parsed_i64(s: Seq<char>) -> Option<i64> {
    let digits = unsigned_part(s);
    let negative = s.len() > 0 && s[0] == '-';
    if digits.len() == 0 || !all_digits(digits) {
        None
    } else if negative {
        if digits_value(digits) <= -(i64::MIN as int) {
            Some((-(digits_value(digits) as int)) as i64)
        } else {
            None
        }
    } else if digits_value(digits) <= i64::MAX as int {
        Some(digits_value(digits) as i64)
    } else {
        None
    }
}

/// The score that the field of a form gives: the number it writes; none for
/// a missing or empty field and for one that writes no number.
pub open spec fn field_score(field: Option<Seq<char>>) -> Option<i64> {
    match field {
        Some(s) => parsed_i64(s),
        None => None,
    }
}

/// A longer text of digits writes no smaller a number.
proof fn lemma_digits_value_grows(digits: Seq<char>, n: int)
    requires
        0 <= n <= digits.len(),
    ensures
        digits_value(digits.take(n)) <= digits_value(digits),
    decreases digits.len() - n,
{
    if n < digits.len() {
        assert(digits.take(n + 1).drop_last() == digits.take(n));
        lemma_digits_value_grows(digits, n + 1);
    } else {
        assert(digits.take(n) == digits);
    }
}

/// Reads a 64-bit number; see [`parsed_i64`].
pub fn parse_i64(text: &Vec<char>) -> (number: Option<i64>)
    ensures
        number == parsed_i64(text@),
{
    if text.len() == 0 {
        return None;
    }
    let negative = text[0] == '-';
    let start: usize = if text[0] == '-' || text[0] == '+' {
        1
    } else {
        0
    };
    let ghost digits = unsigned_part(text@);
    assert(digits == text@.skip(start as int));
    if start == text.len() {
        return None;
    }
    let limit: u128 = if negative {
        9223372036854775808
    } else {
        9223372036854775807
    };
    let mut value: u128 = 0;
    let mut i: usize = start;
    assert(digits.take(0) == Seq::<char>::empty());
    while i < text.len()
        invariant
            start <= i <= text.len(),
            start < text.len(),
            digits == text@.skip(start as int),
            digits == unsigned_part(text@),
            negative == (text@[0] == '-'),
            limit == if negative {
                -(i64::MIN as int)
            } else {
                i64::MAX as int
            },
            value == digits_value(digits.take(i - start)),
            value <= limit,
            forall|j: int| 0 <= j < i - start ==> is_digit(#[trigger] digits[j]),
        decreases text.len() - i,
    {
        let c = text[i];
        assert(digits[i - start] == c);
        if !char_is_digit(c) {
            return None;
        }
        assert(digits.take(i - start + 1).drop_last() == digits.take(i - start));
        assert(digits.take(i - start + 1).last() == c);
        let next: u128 = value * 10 + (((c as u8) - 48) as u128);
        if next > limit {
            proof {
                lemma_digits_value_grows(digits, i - start + 1);
            }
            return None;
        }
        value = next;
        i += 1;
    }
    assert(digits.take(digits.len() as int) == digits);
    if negative {
        if value == 9223372036854775808 {
            Some(i64::MIN)
        } else {
            Some(-(value as i64))
        }
    } else {
        Some(value as i64)
    }
}

/// Reads the score out of the field of a form; see [`field_score`].
pub fn parse_score(field: Option<&str>) -> (score: Option<i64>)
    ensures
        score == field_score(
            match field {
                Some(s) => Some(s@),
                None => None,
            },
        ),
{
    match field {
        Some(s) => parse_i64(&chars_of(s)),
        None => None,
    }
}

} // verus!
