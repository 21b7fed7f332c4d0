use harbour_chat::error::AppError;
use harbour_chat::storage::{
    attachment_disposition, avatar_upload_check, check_attachment, check_avatar,
    flagged_error, is_eicar, is_file_field, normalize_filename, validate_attachment_mime,
    validate_avatar_mime, AttachmentDisposition, UploadForm, EICAR_MARKER,
};

const PNG: &[u8] = &[0x89, 0x50, 0x4E, 0x47, 0x0D, 0x0A, 0x1A, 0x0A, 0, 0, 0, 13];

fn validation(r: Result<(), AppError>) -> String {
    match r {
        Err(AppError::Validation(m)) => m,
        other => panic!("expected a validation error, got {other:?}"),
    }
}

#[test]
fn attachment_mime_allow_list() {
    for ok in ["image/jpeg", "image/png", "image/gif", "image/webp", "application/pdf"] {
        assert!(validate_attachment_mime(ok).is_ok());
    }
    assert_eq!(
        validation(validate_attachment_mime("text/plain")),
        "mime type not allowed: text/plain"
    );
}

#[test]
fn avatar_mime_allow_list() {
    assert!(validate_avatar_mime("image/webp").is_ok());
    assert_eq!(
        validation(validate_avatar_mime("application/pdf")),
        "avatar must be an image (got application/pdf)"
    );
}

#[test]
fn attachment_checks_in_order() {
    assert_eq!(
        validation(check_attachment(11, 10, "text/plain", None)),
        "attachment exceeds max size of 10 bytes"
    );
    assert_eq!(
        validation(check_attachment(5, 10, "text/plain", None)),
        "mime type not allowed: text/plain"
    );
    assert_eq!(
        validation(check_attachment(5, 10, "image/png", None)),
        "attachment type not recognized"
    );
    assert_eq!(
        validation(check_attachment(5, 10, "image/jpeg", Some("image/png"))),
        "attachment content type mismatch: declared=image/jpeg detected=image/png"
    );
    assert!(check_attachment(10, 10, "image/png", Some("image/png")).is_ok());
}

#[test]
fn avatar_checks_in_order() {
    assert_eq!(validation(check_avatar(0, 10, "image/png", None)), "avatar is empty");
    assert_eq!(
        validation(check_avatar(11, 10, "image/png", None)),
        "avatar exceeds max size of 10 bytes"
    );
    assert_eq!(
        validation(check_avatar(1, 10, "text/plain", None)),
        "avatar must be an image (got text/plain)"
    );
    assert_eq!(validation(check_avatar(1, 10, "image/png", None)), "avatar type not recognized");
    assert_eq!(
        validation(check_avatar(1, 10, "image/gif", Some("image/png"))),
        "avatar content type mismatch: declared=image/gif detected=image/png"
    );
    assert!(check_avatar(1, 10, "image/png", Some("image/png")).is_ok());
}

#[test]
fn attachment_upload_rejects_mime_mismatch() {
    let r = attachment_disposition(PNG, "image/jpeg", 1024, true);
    match r {
        Err(AppError::Validation(m)) => assert_eq!(
            m,
            "attachment content type mismatch: declared=image/jpeg detected=image/png"
        ),
        other => panic!("expected mismatch, got {other:?}"),
    }
}

#[test]
fn recognized_png_is_stored() {
    assert_eq!(
        attachment_disposition(PNG, "image/png", 1024, true).unwrap(),
        AttachmentDisposition::Store
    );
    assert!(avatar_upload_check(PNG, "image/png", 1024).is_ok());
    assert_eq!(
        validation(avatar_upload_check(b"plain text", "image/png", 1024)),
        "avatar type not recognized"
    );
    assert_eq!(
        validation(attachment_disposition(PNG, "image/png", 4, true).map(|_| ())),
        "attachment exceeds max size of 4 bytes"
    );
}

#[test]
fn eicar_pdf_is_quarantined_when_enabled() {
    let mut data = b"%PDF-1.4\n".to_vec();
    data.extend_from_slice(EICAR_MARKER.as_bytes());
    assert!(is_eicar(&data));
    assert_eq!(
        attachment_disposition(&data, "application/pdf", 1 << 20, true).unwrap(),
        AttachmentDisposition::Quarantine
    );
    assert_eq!(
        attachment_disposition(&data, "application/pdf", 1 << 20, false).unwrap(),
        AttachmentDisposition::Store
    );
    match flagged_error() {
        AppError::Validation(m) => assert_eq!(m, "attachment flagged by malware detector"),
        other => panic!("unexpected {other:?}"),
    }
}

#[test]
fn eicar_needs_utf8_and_marker() {
    assert!(!is_eicar(PNG));
    assert!(!is_eicar(b"%PDF-1.4 harmless"));
    let mut data = vec![0xFFu8];
    data.extend_from_slice(EICAR_MARKER.as_bytes());
    assert!(!is_eicar(&data));
}

#[test]
fn filename_is_made_safe() {
    assert_eq!(normalize_filename("a/b\\c\0d.png"), "a_b_c_d.png");
    assert_eq!(normalize_filename(""), "upload.bin");
    assert_eq!(normalize_filename("report.pdf"), "report.pdf");
}

#[test]
fn long_filename_is_cut_to_200_bytes() {
    let long = "x".repeat(250);
    let cut = normalize_filename(&long);
    assert_eq!(cut.len(), 200);
    assert!(long.starts_with(&cut));
    let multi = format!("{}{}", "é".repeat(100), "tail");
    assert_eq!(normalize_filename(&multi), "é".repeat(100));
}

#[test]
fn filename_cut_inside_a_character_stops_before_it() {
    let odd = format!("a{}", "é".repeat(150));
    assert_eq!(odd.len(), 301);
    let cut = normalize_filename(&odd);
    assert_eq!(cut, format!("a{}", "é".repeat(99)));
    assert_eq!(cut.len(), 199);
    assert_eq!(normalize_filename(&cut), cut);
    assert_eq!(normalize_filename(&"é".repeat(50)), "é".repeat(50));
}

#[test]
fn normalized_names_are_kept_as_they_are() {
    for name in ["../etc/passwd", "", "a\\b", "plain.txt"] {
        let once = normalize_filename(name);
        assert_eq!(normalize_filename(&once), once);
    }
    assert_eq!(normalize_filename("../etc/passwd"), ".._etc_passwd");
}

#[test]
fn upload_form_keeps_the_file_field() {
    assert!(is_file_field("file"));
    assert!(!is_file_field("other"));
    let form = UploadForm::new();
    match form.finish() {
        Err(AppError::Validation(m)) => assert_eq!(m, "file is required"),
        other => panic!("unexpected {other:?}"),
    }
    let mut form = UploadForm::new();
    form.accept_file(None, None, vec![1, 2, 3]);
    let (name, mime, data) = form.finish().unwrap();
    assert_eq!(name, "upload");
    assert_eq!(mime, "application/octet-stream");
    assert_eq!(data, vec![1, 2, 3]);
    let mut form = UploadForm::new();
    form.accept_file(Some("a.png".into()), Some("image/png".into()), vec![9]);
    form.accept_file(None, None, vec![7]);
    let (name, mime, data) = form.finish().unwrap();
    assert_eq!((name.as_str(), mime.as_str(), data), ("a.png", "image/png", vec![7]));
}
