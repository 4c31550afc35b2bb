//! Reading the link ids out of a reorder request.
//!
//! A client may send the ids as JSON, in one of three shapes, or as a form
//! with one `id` field for each link. Reading the bytes as JSON is left to the
//! caller, which hands over the document as a [`JsonValue`].

use crate::errors::{AppError, ErrorKind};
use crate::link_order::ids_of;
use crate::text::{
    ascii_lower, ascii_lowercase, chars_of, pieces_of, slice_of, split, split_on, starts_with,
    str_eq, string_of,
};
use vstd::prelude::*;
use vstd::utf8::{decode_utf8, valid_utf8};

verus! {

/// A JSON document.
#[derive(Debug)]
pub enum JsonValue {
    Null,
    Bool(bool),
    /// A number, in its decimal notation.
    Number(String),
    Text(String),
    Array(Vec<JsonValue>),
    /// An object: its members, each name once.
    Object(Vec<(String, JsonValue)>),
}

/// What percent-decoding by the `urlencoding` crate makes of `text`; `None`
/// where the decoded bytes are no UTF-8 text.
pub uninterp spec fn percent_decoded(text: Seq<char>) -> Option<Seq<char>>;

/// Whether a request with the content type `content_type` carries JSON:
/// whether the type begins, in whatever case, with `application/json`.
pub open spec fn is_json_type(content_type: Seq<char>) -> bool {
    "application/json"@.is_prefix_of(content_type.map_values(|c: char| ascii_lower(c)))
}

/// The texts among `items`, in their order; items of other kinds are left out.
pub open spec fn texts_of(items: Seq<JsonValue>) -> Seq<Seq<char>>
    decreases items.len(),
{
    if items.len() == 0 {
        Seq::empty()
    } else {
        match items.last() {
            JsonValue::Text(t) => texts_of(items.drop_last()).push(t@),
            _ => texts_of(items.drop_last()),
        }
    }
}

/// The items of the member `name` of an object, where it has that member
/// and the member is an array.
pub open spec fn array_member(members: Seq<(String, JsonValue)>, name: Seq<char>) -> Option<
    Seq<JsonValue>,
>
    decreases members.len(),
{
    if members.len() == 0 {
        None
    } else if members[0].0@ == name {
        match members[0].1 {
            JsonValue::Array(items) => Some(items@),
            _ => None,
        }
    } else {
        array_member(members.drop_first(), name)
    }
}

/// The link ids that a JSON document carries: the texts of the array that is
/// the member `id` of an object, or else its member `ids`, or the document
/// itself. `None` for any other document.
pub open spec fn json_link_ids(document: JsonValue) -> Option<Seq<Seq<char>>> {
    match document {
        JsonValue::Object(members) => match array_member(members@, "id"@) {
            Some(items) => Some(texts_of(items)),
            None => match array_member(members@, "ids"@) {
                Some(items) => Some(texts_of(items)),
                None => None,
            },
        },
        JsonValue::Array(items) => Some(texts_of(items@)),
        _ => None,
    }
}

/// The link id that one field of a form carries: the decoded value of a field
/// named `id`, that is, of a field that begins with `id=`. A field of another
/// name, without a `=`, or with a value that cannot be decoded carries none.
pub open spec fn field_link_id(field: Seq<char>) -> Option<Seq<char>> {
    if "id="@.is_prefix_of(field) {
        percent_decoded(field.skip("id="@.len() as int))
    } else {
        None
    }
}

/// The link ids that the fields of a form carry, in their order.
pub open spec fn fields_link_ids(fields: Seq<Seq<char>>) -> Seq<Seq<char>>
    decreases fields.len(),
{
    if fields.len() == 0 {
        Seq::empty()
    } else {
        match field_link_id(fields.last()) {
            Some(id) => fields_link_ids(fields.drop_last()).push(id),
            None => fields_link_ids(fields.drop_last()),
        }
    }
}

/// The link ids that a form carries: those of its fields, which `&` separates.
pub open spec fn form_link_ids(form: Seq<char>) -> Seq<Seq<char>> {
    fields_link_ids(split_on(form, '&'))
}

/// `urlencoding::decode`, as an owned text. The outcome depends on the text
/// alone, and a text without a `%` is returned as it is.
#[verifier::external_body]
pub(crate) fn percent_decode(text: &str) -> (decoded: Option<String>)
    ensures
        match decoded {
            Some(d) => percent_decoded(text@) == Some(d@) && (text@.contains('%') || d@ == text@),
            None => percent_decoded(text@) is None && text@.contains('%'),
        },
{
    urlencoding::decode(text).ok().map(|d| d.into_owned())
}

/// Whether a request with the content type `content_type` carries JSON.
pub fn is_json_content_type(content_type: &str) -> (json: bool)
    ensures
        json == is_json_type(content_type@),
{
    let lowered = ascii_lowercase(&chars_of(content_type));
    starts_with(&lowered, &chars_of("application/json"))
}

/// `String::from_utf8`: the text that the bytes encode, where they are valid
/// UTF-8, and nothing where they are not.
#[verifier::external_body]
pub(crate) fn utf8_text(bytes: Vec<u8>) -> (text: Option<String>)
    ensures
        match text {
            Some(t) => valid_utf8(bytes@) && t@ == decode_utf8(bytes@),
            None => !valid_utf8(bytes@),
        },
{
    String::from_utf8(bytes).ok()
}

fn collect_texts(items: &Vec<JsonValue>) -> (ids: Vec<String>)
    ensures
        ids_of(ids@) == texts_of(items@),
{
    let mut ids: Vec<String> = Vec::new();
    let mut i: usize = 0;
    assert(ids_of(ids@) == Seq::<Seq<char>>::empty());
    while i < items.len()
        invariant
            i <= items.len(),
            ids_of(ids@) == texts_of(items@.take(i as int)),
        decreases items.len() - i,
    {
        let ghost before = ids_of(ids@);
        assert(items@.take(i + 1).drop_last() == items@.take(i as int));
        assert(items@.take(i + 1).last() == items@[i as int]);
        match &items[i] {
            JsonValue::Text(t) => {
                ids.push(t.clone());
                assert(ids_of(ids@) == before.push(t@));
            },
            _ => {},
        }
        i += 1;
    }
    assert(items@.take(items.len() as int) == items@);
    ids
}

fn find_array<'a>(members: &'a Vec<(String, JsonValue)>, name: &str) -> (found: Option<
    &'a Vec<JsonValue>,
>)
    ensures
        match found {
            Some(items) => array_member(members@, name@) == Some(items@),
            None => array_member(members@, name@) is None,
        },
{
    let mut i: usize = 0;
    assert(members@.skip(0) == members@);
    while i < members.len()
        invariant
            i <= members.len(),
            array_member(members@, name@) == array_member(members@.skip(i as int), name@),
        decreases members.len() - i,
    {
        assert(members@.skip(i as int).drop_first() == members@.skip(i + 1));
        assert(members@.skip(i as int)[0] == members@[i as int]);
        if str_eq(members[i].0.as_str(), name) {
            return match &members[i].1 {
                JsonValue::Array(items) => Some(items),
                _ => None,
            };
        }
        i += 1;
    }
    None
}

/// Reads the link ids out of a JSON request. `document` is the request's
/// body read as JSON, or `None` where it could not be read so.
///
/// Fails with `InvalidInput`: `Invalid JSON shape` for an object without an
/// array under `id` or `ids`, `Invalid JSON` for a document that is neither
/// an object nor an array and for a body that is no JSON.
pub fn link_ids_from_json(document: Option<&JsonValue>) -> (r: Result<Vec<String>, AppError>)
    ensures
        match document {
            Some(d) => match json_link_ids(*d) {
                Some(ids) => r matches Ok(v) && ids_of(v@) == ids,
                None => r matches Err(e) && e.reports(
                    ErrorKind::InvalidInput,
                    if *d is Object {
                        "Invalid JSON shape"@
                    } else {
                        "Invalid JSON"@
                    },
                ),
            },
            None => r matches Err(e) && e.reports(ErrorKind::InvalidInput, "Invalid JSON"@),
        },
{
    match document {
        Some(JsonValue::Object(members)) => {
            match find_array(members, "id") {
                Some(items) => Ok(collect_texts(items)),
                None => match find_array(members, "ids") {
                    Some(items) => Ok(collect_texts(items)),
                    None => Err(AppError::InvalidInput("Invalid JSON shape".to_owned())),
                },
            }
        },
        Some(JsonValue::Array(items)) => Ok(collect_texts(items)),
        _ => Err(AppError::InvalidInput("Invalid JSON".to_owned())),
    }
}

fn link_id_of_field(field: &Vec<char>) -> (id: Option<String>)
    ensures
        match id {
            Some(s) => field_link_id(field@) == Some(s@),
            None => field_link_id(field@) is None,
        },
{
    let key = chars_of("id=");
    if starts_with(field, &key) {
        let value = string_of(&slice_of(field, key.len(), field.len()));
        percent_decode(value.as_str())
    } else {
        None
    }
}

/// Reads the link ids out of a form: the decoded values of its `id` fields,
/// in their order; see [`form_link_ids`]. Fields that carry no id are passed
/// over.
pub fn link_ids_from_form(form: &str) -> (ids: Vec<String>)
    ensures
        ids_of(ids@) == form_link_ids(form@),
{
    let fields = split(&chars_of(form), '&');
    let ghost all = pieces_of(fields@);
    let mut ids: Vec<String> = Vec::new();
    let mut i: usize = 0;
    assert(ids_of(ids@) == Seq::<Seq<char>>::empty());
    while i < fields.len()
        invariant
            i <= fields.len(),
            all == pieces_of(fields@),
            ids_of(ids@) == fields_link_ids(all.take(i as int)),
        decreases fields.len() - i,
    {
        let ghost placed = ids_of(ids@);
        assert(all.take(i + 1).drop_last() == all.take(i as int));
        assert(all.take(i + 1).last() == fields@[i as int]@);
        match link_id_of_field(&fields[i]) {
            Some(s) => {
                ids.push(s);
                assert(ids_of(ids@) == placed.push(s@));
            },
            None => {},
        }
        i += 1;
    }
    assert(all.take(fields.len() as int) == all);
    ids
}

/// Reads the link ids out of the body of a form request. Fails with
/// `InvalidInput`, `Invalid form encoding`, exactly where the body is not
/// UTF-8 text.
pub fn link_ids_from_form_body(body: Vec<u8>) -> (r: Result<Vec<String>, AppError>)
    ensures
        match r {
            Ok(ids) => valid_utf8(body@) && ids_of(ids@) == form_link_ids(decode_utf8(body@)),
            Err(e) => !valid_utf8(body@) && e.reports(
                ErrorKind::InvalidInput,
                "Invalid form encoding"@,
            ),
        },
{
    match utf8_text(body) {
        Some(form) => Ok(link_ids_from_form(form.as_str())),
        None => Err(AppError::InvalidInput("Invalid form encoding".to_owned())),
    }
}

} // verus!
