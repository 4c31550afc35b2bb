//! Avatar images: which uploads are accepted, how stored files are named,
//! and how the outcomes of a batch are reported.

use crate::errors::{AppError, ErrorKind};
use crate::ids::fresh_id;
use crate::text::{decimal, decimal_of, str_eq};
use vstd::prelude::*;

verus! {

/// The stored record of a profile's avatar image.
#[derive(Debug, Clone)]
pub struct FrogolAvatarImage {
    pub id: String,
    pub frogol_id: String,
    pub image_filename: String,
    pub created_at: String,
}

/// What is known of an image once its file has been saved, before its record
/// is stored.
pub struct ProcessedImageData {
    pub new_image_id: String,
    pub unique_filename: String,
    pub image_order: i64,
}

/// The largest avatar that is accepted, in bytes: 5 MiB.
pub const MAX_AVATAR_BYTES: usize = 5242880;

/// How many images of a batch are processed at a time.
pub const MAX_CONCURRENT_UPLOADS: usize = 4;

/// How many image files of a batch are deleted at a time.
pub const MAX_CONCURRENT_DELETIONS: usize = 8;

/// What the type sniffer of the `infer` crate makes of a file's first bytes:
/// the MIME type of the first signature that matches, if any does.
pub uninterp spec fn sniffed_mime(bytes: Seq<u8>) -> Option<Seq<char>>;

/// The image types that are accepted: JPEG, PNG, GIF and WebP.
pub open spec fn is_allowed_image_type(mime: Seq<char>) -> bool {
    ||| mime == "image/jpeg"@
    ||| mime == "image/png"@
    ||| mime == "image/gif"@
    ||| mime == "image/webp"@
}

/// The type that the client declared, where it says anything: a missing or
/// empty declaration and `application/octet-stream` say nothing.
pub open spec fn declared_type(content_type: Option<Seq<char>>) -> Option<Seq<char>> {
    match content_type {
        Some(t) => if t.len() == 0 || t == "application/octet-stream"@ {
            None
        } else {
            Some(t)
        },
        None => None,
    }
}

/// The message that rejects an image of the type `mime`.
pub open spec fn unsupported_type_message(mime: Seq<char>) -> Seq<char> {
    "Unsupported image type: "@ + mime + ". Only JPEG, PNG, GIF, and WebP are allowed."@
}

/// The name under which an uploaded file is stored: the identifier, a dot,
/// and the extension of the uploaded name, or `bin` where that has none.
pub open spec fn stored_name(id: Seq<char>, extension: Option<Seq<char>>) -> Seq<char> {
    id + "."@ + match extension {
        Some(e) => e,
        None => "bin"@,
    }
}

/// The address under which a stored avatar is served.
pub open spec fn avatar_address(filename: Seq<char>) -> Seq<char> {
    "/static/avatars/"@ + filename
}

/// `infer::get`, then `Type::mime_type`. The contract claims only that the
/// answer depends on the bytes alone.
#[verifier::external_body]
pub(crate) fn sniff_mime(bytes: &[u8]) -> (mime: Option<String>)
    ensures
        match mime {
            Some(m) => sniffed_mime(bytes@) == Some(m@),
            None => sniffed_mime(bytes@) is None,
        },
{
    infer::get(bytes).map(|kind| kind.mime_type().to_owned())
}

/// `Path::extension` of the standard library on an uploaded file name, as
/// text. How a name is cut into components depends on the platform, so
/// nothing is claimed of the result.
#[verifier::external_body]
pub(crate) fn path_extension(file_name: &str) -> (extension: Option<String>) {
    std::path::Path::new(file_name).extension().and_then(|e| e.to_str()).map(|e| e.to_owned())
}

/// Whether `mime` is one of the accepted image types.
pub fn allowed_image_type(mime: &str) -> (allowed: bool)
    ensures
        allowed == is_allowed_image_type(mime@),
{
    str_eq(mime, "image/jpeg") || str_eq(mime, "image/png") || str_eq(mime, "image/gif") || str_eq(
        mime,
        "image/webp",
    )
}

/// The type that the client declared for an upload, where the declaration
/// says anything; see [`declared_type`]. Where it says nothing the type is
/// taken from the file's bytes, by [`image_type_of`].
pub fn client_image_type(content_type: Option<&str>) -> (declared: Option<String>)
    ensures
        match declared {
            Some(t) => content_type matches Some(c) && declared_type(Some(c@)) == Some(t@),
            None => match content_type {
                Some(c) => declared_type(Some(c@)) is None,
                None => true,
            },
        },
{
    match content_type {
        Some(t) => {
            if str_eq(t, "application/octet-stream") || t.unicode_len() == 0 {
                None
            } else {
                Some(t.to_owned())
            }
        },
        None => None,
    }
}

/// What a sniffing of a file's bytes says of its type: the type found, or a
/// `ValidationError` where none was.
pub fn sniffed_image_type(sniffed: Option<String>) -> (r: Result<String, AppError>)
    ensures
        match sniffed {
            Some(m) => r == Ok::<String, AppError>(m),
            None => r matches Err(e) && e.reports(
                ErrorKind::ValidationError,
                "Could not determine image type. Please upload a valid image."@,
            ),
        },
{
    match sniffed {
        Some(m) => Ok(m),
        None => Err(
            AppError::ValidationError(
                "Could not determine image type. Please upload a valid image.".to_owned(),
            ),
        ),
    }
}

/// The type of an image by its first bytes. Succeeds exactly where the
/// sniffer knows the bytes, see [`sniffed_mime`]; whether the type is an
/// accepted one is for [`check_image_type`] to say.
pub fn image_type_of(bytes: &[u8]) -> (r: Result<String, AppError>)
    ensures
        match r {
            Ok(m) => sniffed_mime(bytes@) == Some(m@),
            Err(e) => sniffed_mime(bytes@) is None && e.reports(
                ErrorKind::ValidationError,
                "Could not determine image type. Please upload a valid image."@,
            ),
        },
{
    sniffed_image_type(sniff_mime(bytes))
}

/// Accepts an image of an accepted type and rejects any other with a
/// `ValidationError` that names the type.
pub fn check_image_type(mime: &str) -> (r: Result<(), AppError>)
    ensures
        r is Ok <==> is_allowed_image_type(mime@),
        r matches Err(e) ==> e.reports(
            ErrorKind::ValidationError,
            unsupported_type_message(mime@),
        ),
{
    if allowed_image_type(mime) {
        Ok(())
    } else {
        let mut message = "Unsupported image type: ".to_owned();
        message.append(mime);
        message.append(". Only JPEG, PNG, GIF, and WebP are allowed.");
        Err(AppError::ValidationError(message))
    }
}

/// Names a stored file; see [`stored_name`].
pub fn unique_filename(id: &str, extension: Option<String>) -> (name: String)
    ensures
        name@ == stored_name(
            id@,
            match extension {
                Some(e) => Some(e@),
                None => None,
            },
        ),
{
    let mut name = id.to_owned();
    name.append(".");
    match extension {
        Some(e) => name.append(e.as_str()),
        None => name.append("bin"),
    }
    name
}

/// A name for storing an upload named `file_name`: a fresh random identifier,
/// a dot, and the extension of the upload's name, or `bin` where the
/// platform finds none in it.
pub fn fresh_filename(file_name: &str) -> (name: String)
    ensures
        exists|id: Seq<char>, extension: Option<Seq<char>>| name@ == stored_name(id, extension),
{
    unique_filename(fresh_id().as_str(), path_extension(file_name))
}

/// Gives the address under which a stored avatar is served.
pub fn avatar_url(filename: &str) -> (url: String)
    ensures
        url@ == avatar_address(filename@),
{
    let mut url = "/static/avatars/".to_owned();
    url.append(filename);
    url
}

/// The place of an image in a batch: `starting_order` for the first and one
/// more for each that follows.
pub fn image_order(starting_order: i64, index: usize) -> (order: i64)
    requires
        index <= i64::MAX,
        starting_order + index <= i64::MAX,
    ensures
        order == starting_order + index,
{
    starting_order + (index as i64)
}

impl ProcessedImageData {
    /// What is recorded for an upload named `file_name` at the place
    /// `image_order`: a fresh random identifier for the record, and a stored
    /// name made of another one, a dot, and the extension of the upload's
    /// name or `bin`.
    pub fn prepare(file_name: &str, image_order: i64) -> (data: ProcessedImageData)
        ensures
            data.image_order == image_order,
            exists|id: Seq<char>, extension: Option<Seq<char>>|
                data.unique_filename@ == stored_name(id, extension),
    {
        let name = fresh_filename(file_name);
        ProcessedImageData { new_image_id: fresh_id(), unique_filename: name, image_order }
    }
}

/// The message that rejects the image at place `index` of a batch for having
/// no file name.
pub open spec fn no_filename_message(index: nat) -> Seq<char> {
    "Image at index "@ + decimal_of(index) + " has no filename"@
}

/// The message that rejects the image at place `index` of a batch for having
/// an empty file name and no declared type.
pub open spec fn empty_filename_message(index: nat) -> Seq<char> {
    "Image at index "@ + decimal_of(index) + " has empty filename and no content type"@
}

/// Whether the image at some place of a batch can be processed at all: it
/// has a file name, and where that is empty it has at least a declared type.
pub open spec fn is_processable(file_name: Option<Seq<char>>, has_content_type: bool) -> bool {
    match file_name {
        Some(name) => name.len() > 0 || has_content_type,
        None => false,
    }
}

/// Looks at one upload of a batch before its file is touched. Rejects with a
/// `ValidationError` an upload without a file name, and one with an empty
/// file name and no declared type; the message gives its place in the batch.
pub fn check_image_field(index: usize, file_name: Option<&str>, has_content_type: bool) -> (r:
    Result<(), AppError>)
    ensures
        r is Ok <==> is_processable(
            match file_name {
                Some(n) => Some(n@),
                None => None,
            },
            has_content_type,
        ),
        r matches Err(e) ==> e.reports(
            ErrorKind::ValidationError,
            if file_name is None {
                no_filename_message(index as nat)
            } else {
                empty_filename_message(index as nat)
            },
        ),
{
    match file_name {
        None => {
            let mut message = "Image at index ".to_owned();
            message.append(decimal(index).as_str());
            message.append(" has no filename");
            Err(AppError::ValidationError(message))
        },
        Some(name) => {
            if name.unicode_len() == 0 && !has_content_type {
                let mut message = "Image at index ".to_owned();
                message.append(decimal(index).as_str());
                message.append(" has empty filename and no content type");
                Err(AppError::ValidationError(message))
            } else {
                Ok(())
            }
        },
    }
}

/// Rejects an upload whose file is empty, with a `ValidationError` that
/// names it.
pub fn check_image_size(file_name: &str, size: u64) -> (r: Result<(), AppError>)
    ensures
        r is Ok <==> size > 0,
        r matches Err(e) ==> e.reports(
            ErrorKind::ValidationError,
            "Image "@ + file_name@ + " is empty"@,
        ),
{
    if size == 0 {
        let mut message = "Image ".to_owned();
        message.append(file_name);
        message.append(" is empty");
        Err(AppError::ValidationError(message))
    } else {
        Ok(())
    }
}

/// The error for an upload whose file could not be examined; `reason` is what
/// the file system said.
pub fn metadata_failure(file_name: &str, reason: &str) -> (e: AppError)
    ensures
        e.reports(
            ErrorKind::ValidationError,
            "Failed to read metadata for "@ + file_name@ + ": "@ + reason@,
        ),
{
    let mut message = "Failed to read metadata for ".to_owned();
    message.append(file_name);
    message.append(": ");
    message.append(reason);
    AppError::ValidationError(message)
}

/// The error for a stored image file that could not be deleted.
pub fn delete_failure(image_filename: &str) -> (e: AppError)
    ensures
        e.reports(ErrorKind::Internal, "Failed to delete image file: "@ + image_filename@),
{
    let mut message = "Failed to delete image file: ".to_owned();
    message.append(image_filename);
    AppError::Internal(message)
}

/// Whether an avatar of `size` bytes with the declared type `content_type`
/// is accepted: it is no larger than 5 MiB, and its type, where one is
/// declared, is an accepted one.
pub open spec fn is_acceptable_avatar(size: nat, content_type: Option<Seq<char>>) -> bool {
    &&& size <= MAX_AVATAR_BYTES
    &&& match content_type {
        Some(t) => is_allowed_image_type(t),
        None => true,
    }
}

/// Looks at an uploaded avatar. Rejects with a `ValidationError` one that is
/// too large, and otherwise one whose declared type is not accepted.
pub fn check_avatar_upload(size: usize, content_type: Option<&str>) -> (r: Result<(), AppError>)
    ensures
        r is Ok <==> is_acceptable_avatar(
            size as nat,
            match content_type {
                Some(t) => Some(t@),
                None => None,
            },
        ),
        r matches Err(e) ==> e.reports(
            ErrorKind::ValidationError,
            if size > MAX_AVATAR_BYTES {
                "File size must be less than 5MB"@
            } else {
                "Only JPEG, PNG, GIF, and WebP images are allowed"@
            },
        ),
{
    if size > MAX_AVATAR_BYTES {
        return Err(AppError::ValidationError("File size must be less than 5MB".to_owned()));
    }
    match content_type {
        Some(t) => {
            if allowed_image_type(t) {
                Ok(())
            } else {
                Err(
                    AppError::ValidationError(
                        "Only JPEG, PNG, GIF, and WebP images are allowed".to_owned(),
                    ),
                )
            }
        },
        None => Ok(()),
    }
}

} // verus!
