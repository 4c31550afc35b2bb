use frogolio::errors::AppError;
use frogolio::images::{
    allowed_image_type, avatar_url, check_avatar_upload, check_image_field, check_image_size,
    check_image_type, client_image_type, delete_failure, image_order, image_type_of,
    metadata_failure, sniffed_image_type, unique_filename, ProcessedImageData, MAX_AVATAR_BYTES,
    MAX_CONCURRENT_DELETIONS, MAX_CONCURRENT_UPLOADS,
};
use frogolio::outcomes::{first_failure, split_outcomes};

fn validation(r: Result<(), AppError>) -> String {
    match r {
        Err(AppError::ValidationError(m)) => m,
        other => panic!("expected a ValidationError, got {:?}", other),
    }
}

#[test]
fn image_types_are_sniffed_from_the_first_bytes() {
    assert_eq!(image_type_of(&[0xFF, 0xD8, 0xFF, 0xE0, 0, 0]).unwrap(), "image/jpeg");
    assert_eq!(image_type_of(&[0x89, 0x50, 0x4E, 0x47, 0x0D, 0x0A]).unwrap(), "image/png");
    assert_eq!(image_type_of(b"GIF89a......").unwrap(), "image/gif");
    assert_eq!(image_type_of(b"RIFF\x00\x00\x00\x00WEBPVP8 ").unwrap(), "image/webp");
    assert_eq!(image_type_of(b"BM......").unwrap(), "image/bmp");
    assert_eq!(image_type_of(b"%PDF-1.7 ...").unwrap(), "application/pdf");
}

#[test]
fn unknown_bytes_have_no_type() {
    for bytes in [&b""[..], &b"hello world"[..], &[0u8, 1, 2, 3][..]] {
        match image_type_of(bytes) {
            Err(AppError::ValidationError(m)) => {
                assert_eq!(m, "Could not determine image type. Please upload a valid image.")
            }
            other => panic!("unexpected {:?}", other),
        }
    }
    assert_eq!(sniffed_image_type(Some("image/png".into())).unwrap(), "image/png");
    assert!(sniffed_image_type(None).is_err());
}

#[test]
fn four_image_types_are_accepted() {
    for mime in ["image/jpeg", "image/png", "image/gif", "image/webp"] {
        assert!(allowed_image_type(mime));
        assert!(check_image_type(mime).is_ok());
    }
    for mime in ["image/bmp", "image/JPEG", "", "image/jpeg ", "application/pdf", "image/svg+xml"] {
        assert!(!allowed_image_type(mime));
    }
    assert_eq!(
        validation(check_image_type("image/bmp")),
        "Unsupported image type: image/bmp. Only JPEG, PNG, GIF, and WebP are allowed."
    );
}

#[test]
fn declared_type_counts_unless_it_says_nothing() {
    assert_eq!(client_image_type(Some("image/png")), Some("image/png".to_string()));
    assert_eq!(client_image_type(Some("text/plain")), Some("text/plain".to_string()));
    assert_eq!(client_image_type(Some("application/octet-stream")), None);
    assert_eq!(client_image_type(Some("")), None);
    assert_eq!(client_image_type(None), None);
}

#[test]
fn stored_files_are_named_by_identifier_and_extension() {
    assert_eq!(unique_filename("abc", Some("png".to_string())), "abc.png");
    assert_eq!(unique_filename("abc", None), "abc.bin");
    assert_eq!(unique_filename("", Some("".to_string())), ".");
    assert_eq!(avatar_url("abc.png"), "/static/avatars/abc.png");
}

#[test]
fn prepared_image_keeps_the_extension_of_the_upload() {
    let data = ProcessedImageData::prepare("holiday.photo.JPG", 2);
    assert_eq!(data.image_order, 2);
    assert_eq!(data.new_image_id.len(), 36);
    assert_eq!(data.unique_filename.len(), 36 + 4);
    assert!(data.unique_filename.ends_with(".JPG"));
    assert!(!data.unique_filename.starts_with(&data.new_image_id));
    let plain = ProcessedImageData::prepare("README", 0);
    assert!(plain.unique_filename.ends_with(".bin"));
    let hidden = ProcessedImageData::prepare(".profile", 0);
    assert!(hidden.unique_filename.ends_with(".bin"));
}

#[test]
fn places_in_a_batch_count_up_from_the_start() {
    assert_eq!(image_order(0, 0), 0);
    assert_eq!(image_order(5, 3), 8);
    assert_eq!(image_order(-2, 2), 0);
}

#[test]
fn uploads_without_a_usable_name_are_refused() {
    assert_eq!(validation(check_image_field(0, None, true)), "Image at index 0 has no filename");
    assert_eq!(validation(check_image_field(12, None, false)), "Image at index 12 has no filename");
    assert_eq!(
        validation(check_image_field(3, Some(""), false)),
        "Image at index 3 has empty filename and no content type"
    );
    assert!(check_image_field(3, Some(""), true).is_ok());
    assert!(check_image_field(3, Some("a.png"), false).is_ok());
}

#[test]
fn empty_files_and_unreadable_files_are_refused() {
    assert!(check_image_size("a.png", 1).is_ok());
    assert_eq!(validation(check_image_size("a.png", 0)), "Image a.png is empty");
    assert_eq!(
        validation(Err(metadata_failure("a.png", "permission denied"))),
        "Failed to read metadata for a.png: permission denied"
    );
    match delete_failure("a.png") {
        AppError::Internal(m) => assert_eq!(m, "Failed to delete image file: a.png"),
        other => panic!("unexpected {:?}", other),
    }
}

#[test]
fn avatars_are_limited_in_size_and_type() {
    assert_eq!(MAX_AVATAR_BYTES, 5 * 1024 * 1024);
    assert_eq!((MAX_CONCURRENT_UPLOADS, MAX_CONCURRENT_DELETIONS), (4, 8));
    assert!(check_avatar_upload(0, None).is_ok());
    assert!(check_avatar_upload(MAX_AVATAR_BYTES, Some("image/webp")).is_ok());
    assert_eq!(
        validation(check_avatar_upload(MAX_AVATAR_BYTES + 1, Some("image/webp"))),
        "File size must be less than 5MB"
    );
    assert_eq!(
        validation(check_avatar_upload(MAX_AVATAR_BYTES + 1, Some("text/plain"))),
        "File size must be less than 5MB"
    );
    assert_eq!(
        validation(check_avatar_upload(10, Some("text/plain"))),
        "Only JPEG, PNG, GIF, and WebP images are allowed"
    );
}

#[test]
fn cleanup_reports_its_first_failure() {
    assert!(first_failure(vec![]).is_ok());
    assert!(first_failure(vec![Ok(()), Ok(())]).is_ok());
    let outcomes = vec![
        Ok(()),
        Err(AppError::Internal("first".into())),
        Ok(()),
        Err(AppError::Database("second".into())),
    ];
    match first_failure(outcomes) {
        Err(AppError::Internal(m)) => assert_eq!(m, "first"),
        other => panic!("unexpected {:?}", other),
    }
    match first_failure(vec![Err(AppError::Database("only".into()))]) {
        Err(AppError::Database(m)) => assert_eq!(m, "only"),
        other => panic!("unexpected {:?}", other),
    }
}

#[test]
fn batch_outcomes_are_sorted_in_order() {
    let outcomes: Vec<Result<i32, AppError>> = vec![
        Ok(1),
        Err(AppError::ValidationError("a".into())),
        Ok(2),
        Ok(3),
        Err(AppError::Internal("b".into())),
    ];
    let (values, errors) = split_outcomes(outcomes);
    assert_eq!(values, vec![1, 2, 3]);
    let messages: Vec<String> = errors.iter().map(|e| e.describe()).collect();
    assert_eq!(messages, vec!["Validation error: a", "Internal server error: b"]);
    let (values, errors) = split_outcomes::<i32>(vec![]);
    assert!(values.is_empty() && errors.is_empty());
}
