//! Tests of the multipart decoder on its own: decoded field metadata,
//! payload bytes, and the failure taxonomy.

use lan_file_drop::{DecodeFailureKind, DecodeOutcome, UploadLimits};

fn extend(v: &mut Vec<u8>, s: &str) {
    for b in s.as_bytes() {
        v.push(*b);
    }
}

#[test]
fn decoded_field_carries_metadata_and_payload() {
    let mut ct = Vec::new();
    extend(&mut ct, "multipart/form-data; boundary=xyz");
    let mut body = Vec::new();
    extend(&mut body, "--xyz\r\n");
    extend(
        &mut body,
        "Content-Disposition: form-data; name=\"file\"; filename=\"pic.png\"\r\n",
    );
    extend(&mut body, "Content-Type: image/png\r\n\r\n");
    extend(&mut body, "PNGDATA");
    extend(&mut body, "\r\n--xyz--");
    let limits = UploadLimits::new(4096, 4096);
    match lan_file_drop::decode_multipart(&ct, &body, &limits) {
        DecodeOutcome::Success(fields) => {
            assert_eq!(fields.len(), 1);
            assert_eq!(fields[0].field_name, b"file".to_vec());
            assert_eq!(fields[0].file_name, Some(b"pic.png".to_vec()));
            assert_eq!(fields[0].content_type, Some(b"image/png".to_vec()));
            assert_eq!(fields[0].bytes, b"PNGDATA".to_vec());
        }
        DecodeOutcome::Failure(k) => panic!("unexpected failure {:?}", k),
    }
}

#[test]
fn boundary_parameter_ends_at_semicolon() {
    let mut ct = Vec::new();
    extend(&mut ct, "multipart/form-data; boundary=abc; charset=utf-8");
    let mut body = Vec::new();
    extend(&mut body, "--abc\r\n");
    extend(&mut body, "Content-Disposition: form-data; name=\"notes\"\r\n\r\n");
    extend(&mut body, "n");
    extend(&mut body, "\r\n--abc--");
    let limits = UploadLimits::new(4096, 4096);
    match lan_file_drop::decode_multipart(&ct, &body, &limits) {
        DecodeOutcome::Success(fields) => {
            assert_eq!(fields.len(), 1);
            assert_eq!(fields[0].field_name, b"notes".to_vec());
            assert_eq!(fields[0].file_name, None);
            assert_eq!(fields[0].bytes, b"n".to_vec());
        }
        DecodeOutcome::Failure(k) => panic!("unexpected failure {:?}", k),
    }
}

#[test]
fn unregistered_fields_count_toward_total() {
    // a "notes" field alone is not size-limited per field, but crossing the
    // total bound still fails the decode
    let mut ct = Vec::new();
    extend(&mut ct, "multipart/form-data; boundary=B");
    let mut body = Vec::new();
    extend(&mut body, "--B\r\n");
    extend(&mut body, "Content-Disposition: form-data; name=\"notes\"\r\n\r\n");
    for _ in 0..300 {
        body.push(b'n');
    }
    extend(&mut body, "\r\n--B--");
    let limits = UploadLimits::new(100, 100);
    let r = lan_file_drop::decode_multipart(&ct, &body, &limits);
    assert!(matches!(
        r,
        DecodeOutcome::Failure(DecodeFailureKind::TotalTooLarge)
    ));
}

#[test]
fn garbage_before_first_delimiter_is_incomplete() {
    let mut ct = Vec::new();
    extend(&mut ct, "multipart/form-data; boundary=B");
    let mut body = Vec::new();
    extend(&mut body, "junk--B\r\n");
    extend(&mut body, "Content-Disposition: form-data; name=\"file\"\r\n\r\n");
    extend(&mut body, "x");
    extend(&mut body, "\r\n--B--");
    let limits = UploadLimits::new(4096, 4096);
    let r = lan_file_drop::decode_multipart(&ct, &body, &limits);
    assert!(matches!(
        r,
        DecodeOutcome::Failure(DecodeFailureKind::IncompleteBody)
    ));
}

#[test]
fn part_without_field_name_is_incomplete() {
    let mut ct = Vec::new();
    extend(&mut ct, "multipart/form-data; boundary=B");
    let mut body = Vec::new();
    extend(&mut body, "--B\r\n");
    extend(&mut body, "Content-Type: text/plain\r\n\r\n");
    extend(&mut body, "x");
    extend(&mut body, "\r\n--B--");
    let limits = UploadLimits::new(4096, 4096);
    let r = lan_file_drop::decode_multipart(&ct, &body, &limits);
    assert!(matches!(
        r,
        DecodeOutcome::Failure(DecodeFailureKind::IncompleteBody)
    ));
}

#[test]
fn unterminated_headers_beyond_total_bound_is_too_large() {
    // the header scan runs off the end of the body, but the total bound was
    // crossed long before: the size limit takes priority over truncation
    let mut ct = Vec::new();
    extend(&mut ct, "multipart/form-data; boundary=B");
    let mut body = Vec::new();
    extend(&mut body, "--B\r\n");
    extend(&mut body, "Content-Disposition: form-data; name=\"file\"");
    for _ in 0..300 {
        body.push(b'h');
    }
    let limits = UploadLimits::new(100, 100);
    let r = lan_file_drop::decode_multipart(&ct, &body, &limits);
    assert!(matches!(
        r,
        DecodeOutcome::Failure(DecodeFailureKind::TotalTooLarge)
    ));
}

#[test]
fn unterminated_headers_within_total_bound_is_incomplete() {
    let mut ct = Vec::new();
    extend(&mut ct, "multipart/form-data; boundary=B");
    let mut body = Vec::new();
    extend(&mut body, "--B\r\n");
    extend(&mut body, "Content-Disposition: form-data; name=\"file\"");
    let limits = UploadLimits::new(4096, 4096);
    let r = lan_file_drop::decode_multipart(&ct, &body, &limits);
    assert!(matches!(
        r,
        DecodeOutcome::Failure(DecodeFailureKind::IncompleteBody)
    ));
}

#[test]
fn garbage_after_part_delimiter_beyond_total_bound_is_too_large() {
    let mut ct = Vec::new();
    extend(&mut ct, "multipart/form-data; boundary=B");
    let mut body = Vec::new();
    extend(&mut body, "--B\r\n");
    extend(&mut body, "Content-Disposition: form-data; name=\"notes\"\r\n\r\n");
    extend(&mut body, "hi");
    extend(&mut body, "\r\n--B");
    extend(&mut body, "zz");
    // the scan of the marker after the delimiter consumes the whole body
    let n = body.len() as u64;
    let within = lan_file_drop::decode_multipart(&ct, &body, &UploadLimits::new(n, n));
    assert!(matches!(
        within,
        DecodeOutcome::Failure(DecodeFailureKind::IncompleteBody)
    ));
    let beyond = lan_file_drop::decode_multipart(&ct, &body, &UploadLimits::new(n - 1, n - 1));
    assert!(matches!(
        beyond,
        DecodeOutcome::Failure(DecodeFailureKind::TotalTooLarge)
    ));
}

#[test]
fn quoted_boundary_is_accepted() {
    let mut ct = Vec::new();
    extend(&mut ct, "multipart/form-data; boundary=\"xyz\"");
    let mut body = Vec::new();
    extend(&mut body, "--xyz\r\n");
    extend(&mut body, "Content-Disposition: form-data; name=\"notes\"\r\n\r\n");
    extend(&mut body, "n");
    extend(&mut body, "\r\n--xyz--");
    let limits = UploadLimits::new(4096, 4096);
    match lan_file_drop::decode_multipart(&ct, &body, &limits) {
        DecodeOutcome::Success(fields) => {
            assert_eq!(fields.len(), 1);
            assert_eq!(fields[0].field_name, b"notes".to_vec());
        }
        DecodeOutcome::Failure(k) => panic!("unexpected failure {:?}", k),
    }
}

#[test]
fn quoted_empty_boundary_is_malformed() {
    let mut ct = Vec::new();
    extend(&mut ct, "multipart/form-data; boundary=\"\"");
    let body = b"----".to_vec();
    let limits = UploadLimits::new(4096, 4096);
    let r = lan_file_drop::decode_multipart(&ct, &body, &limits);
    assert!(matches!(
        r,
        DecodeOutcome::Failure(DecodeFailureKind::MalformedRequest)
    ));
}

#[test]
fn empty_boundary_is_malformed() {
    let mut ct = Vec::new();
    extend(&mut ct, "multipart/form-data; boundary=");
    let body = b"----".to_vec();
    let limits = UploadLimits::new(4096, 4096);
    let r = lan_file_drop::decode_multipart(&ct, &body, &limits);
    assert!(matches!(
        r,
        DecodeOutcome::Failure(DecodeFailureKind::MalformedRequest)
    ));
}
