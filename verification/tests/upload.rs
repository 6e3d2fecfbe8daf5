//! End-to-end tests of the upload pipeline: multipart bodies are decoded
//! under limits and committed to a store through the handler.

use lan_file_drop::{
    handle_upload, ClientErrorKind, DecodeFailureKind, DecodeOutcome, FatalKind, Store,
    UploadLimits, UploadResult,
};

fn push_str(v: &mut Vec<u8>, s: &str) {
    for b in s.as_bytes() {
        v.push(*b);
    }
}

fn content_type(boundary: &str) -> Vec<u8> {
    let mut v = Vec::new();
    push_str(&mut v, "multipart/form-data; boundary=");
    push_str(&mut v, boundary);
    v
}

/// A single-part body: `--B`, the given header lines, a blank line, the
/// payload, then the closing `--B--`.
fn one_part_body(boundary: &str, headers: &str, payload: &[u8]) -> Vec<u8> {
    let mut v = Vec::new();
    push_str(&mut v, "--");
    push_str(&mut v, boundary);
    push_str(&mut v, "\r\n");
    push_str(&mut v, headers);
    push_str(&mut v, "\r\n\r\n");
    for b in payload {
        v.push(*b);
    }
    push_str(&mut v, "\r\n--");
    push_str(&mut v, boundary);
    push_str(&mut v, "--");
    v
}

#[test]
fn stored_500_bytes_under_declared_name() {
    let ct = content_type("B");
    let payload = vec![b'x'; 500];
    let body = one_part_body(
        "B",
        "Content-Disposition: form-data; name=\"file\"; filename=\"a.txt\"",
        &payload,
    );
    let limits = UploadLimits::new(1000, 1000);
    let mut store = Store::new();
    let r = handle_upload(&ct, &body, &limits, &mut store);
    match r {
        Ok(UploadResult::Stored(name)) => assert_eq!(name, b"a.txt".to_vec()),
        _ => panic!("expected Stored"),
    }
    let got = store.get(&b"a.txt".to_vec()).expect("stored file missing");
    assert_eq!(got.len(), 500);
    assert_eq!(*got, payload);
    assert_eq!(store.count(), 1);
}

#[test]
fn oversized_1001_bytes_rejected_and_nothing_written() {
    let ct = content_type("B");
    let payload = vec![b'x'; 1001];
    let body = one_part_body(
        "B",
        "Content-Disposition: form-data; name=\"file\"; filename=\"a.txt\"",
        &payload,
    );
    let limits = UploadLimits::new(1000, 1000);
    let mut store = Store::new();
    let r = handle_upload(&ct, &body, &limits, &mut store);
    assert!(matches!(
        r,
        Ok(UploadResult::Rejected(ClientErrorKind::FileTooLarge))
    ));
    assert_eq!(store.count(), 0);
    assert!(store.get(&b"a.txt".to_vec()).is_none());
}

#[test]
fn notes_only_rejected_no_file_provided() {
    let ct = content_type("B");
    let body = one_part_body(
        "B",
        "Content-Disposition: form-data; name=\"notes\"",
        b"just some notes",
    );
    let limits = UploadLimits::new(1000, 1000);
    let mut store = Store::new();
    let r = handle_upload(&ct, &body, &limits, &mut store);
    assert!(matches!(
        r,
        Ok(UploadResult::Rejected(ClientErrorKind::NoFileProvided))
    ));
    assert_eq!(store.count(), 0);
}

#[test]
fn file_limit_hit_before_total_limit() {
    let ct = content_type("B");
    let payload = vec![b'y'; 200];
    let body = one_part_body(
        "B",
        "Content-Disposition: form-data; name=\"file\"; filename=\"big.bin\"",
        &payload,
    );
    let limits = UploadLimits::new(10000, 100);
    let r = lan_file_drop::decode_multipart(&ct, &body, &limits);
    assert!(matches!(
        r,
        DecodeOutcome::Failure(DecodeFailureKind::FieldTooLarge)
    ));
    let mut store = Store::new();
    let h = handle_upload(&ct, &body, &limits, &mut store);
    assert!(matches!(
        h,
        Ok(UploadResult::Rejected(ClientErrorKind::FileTooLarge))
    ));
    assert_eq!(store.count(), 0);
}

#[test]
fn truncated_body_rejected_no_partial_file() {
    let ct = content_type("B");
    let full = one_part_body(
        "B",
        "Content-Disposition: form-data; name=\"file\"; filename=\"a.txt\"",
        b"hello world",
    );
    // the connection closed after part of the body
    let cut = full[..full.len() - 9].to_vec();
    let limits = UploadLimits::new(1000, 1000);
    let mut store = Store::new();
    let r = handle_upload(&ct, &cut, &limits, &mut store);
    assert!(matches!(
        r,
        Ok(UploadResult::Rejected(ClientErrorKind::BodyTruncated))
    ));
    assert_eq!(store.count(), 0);
}

#[test]
fn oversized_body_with_broken_headers_rejected_as_too_large() {
    // the header block never ends, but the body crossed the total bound
    // first: the client sees the size rejection, and nothing is written
    let ct = content_type("B");
    let mut body = Vec::new();
    push_str(&mut body, "--B\r\n");
    push_str(&mut body, "Content-Disposition: form-data; name=\"file\"");
    for _ in 0..2000 {
        body.push(b'x');
    }
    let limits = UploadLimits::new(1000, 1000);
    let mut store = Store::new();
    let r = handle_upload(&ct, &body, &limits, &mut store);
    assert!(matches!(
        r,
        Ok(UploadResult::Rejected(ClientErrorKind::FileTooLarge))
    ));
    assert_eq!(store.count(), 0);
}

#[test]
fn malformed_content_type_is_fatal() {
    let ct = b"text/plain".to_vec();
    let body = one_part_body(
        "B",
        "Content-Disposition: form-data; name=\"file\"",
        b"abc",
    );
    let limits = UploadLimits::new(1000, 1000);
    let mut store = Store::new();
    let r = handle_upload(&ct, &body, &limits, &mut store);
    assert!(matches!(r, Err(FatalKind::MalformedRequest)));
    assert_eq!(store.count(), 0);
}

#[test]
fn missing_boundary_parameter_is_fatal() {
    let ct = b"multipart/form-data".to_vec();
    let body = one_part_body(
        "B",
        "Content-Disposition: form-data; name=\"file\"",
        b"abc",
    );
    let limits = UploadLimits::new(1000, 1000);
    let mut store = Store::new();
    let r = handle_upload(&ct, &body, &limits, &mut store);
    assert!(matches!(r, Err(FatalKind::MalformedRequest)));
}

#[test]
fn second_upload_overwrites_first() {
    let ct = content_type("B");
    let limits = UploadLimits::new(1000, 1000);
    let mut store = Store::new();
    let headers = "Content-Disposition: form-data; name=\"file\"; filename=\"a.txt\"";
    let first = one_part_body("B", headers, b"first contents");
    let second = one_part_body("B", headers, b"second");
    let r1 = handle_upload(&ct, &first, &limits, &mut store);
    assert!(matches!(r1, Ok(UploadResult::Stored(_))));
    let r2 = handle_upload(&ct, &second, &limits, &mut store);
    assert!(matches!(r2, Ok(UploadResult::Stored(_))));
    assert_eq!(store.count(), 1);
    let got = store.get(&b"a.txt".to_vec()).expect("stored file missing");
    assert_eq!(*got, b"second".to_vec());
}

#[test]
fn missing_file_name_uses_placeholder() {
    let ct = content_type("B");
    let body = one_part_body("B", "Content-Disposition: form-data; name=\"file\"", b"data");
    let limits = UploadLimits::new(1000, 1000);
    let mut store = Store::new();
    let r = handle_upload(&ct, &body, &limits, &mut store);
    match r {
        Ok(UploadResult::Stored(name)) => assert_eq!(name, b"File".to_vec()),
        _ => panic!("expected Stored"),
    }
    assert_eq!(*store.get(&b"File".to_vec()).unwrap(), b"data".to_vec());
}

#[test]
fn empty_file_name_uses_placeholder() {
    let ct = content_type("B");
    let body = one_part_body(
        "B",
        "Content-Disposition: form-data; name=\"file\"; filename=\"\"",
        b"data",
    );
    let limits = UploadLimits::new(1000, 1000);
    let mut store = Store::new();
    let r = handle_upload(&ct, &body, &limits, &mut store);
    match r {
        Ok(UploadResult::Stored(name)) => assert_eq!(name, b"File".to_vec()),
        _ => panic!("expected Stored"),
    }
}

#[test]
fn body_with_no_parts_rejected_no_file_provided() {
    let ct = content_type("B");
    let body = b"--B--".to_vec();
    let limits = UploadLimits::new(1000, 1000);
    let mut store = Store::new();
    let r = handle_upload(&ct, &body, &limits, &mut store);
    assert!(matches!(
        r,
        Ok(UploadResult::Rejected(ClientErrorKind::NoFileProvided))
    ));
}

#[test]
fn empty_body_rejected_truncated() {
    let ct = content_type("B");
    let body = Vec::new();
    let limits = UploadLimits::new(1000, 1000);
    let mut store = Store::new();
    let r = handle_upload(&ct, &body, &limits, &mut store);
    assert!(matches!(
        r,
        Ok(UploadResult::Rejected(ClientErrorKind::BodyTruncated))
    ));
}

#[test]
fn total_limit_is_exact() {
    let ct = content_type("B");
    let body = one_part_body(
        "B",
        "Content-Disposition: form-data; name=\"file\"; filename=\"a.txt\"",
        b"payload",
    );
    let n = body.len() as u64;
    // the whole body just fits
    let mut store = Store::new();
    let ok = handle_upload(&ct, &body, &UploadLimits::new(n, n), &mut store);
    assert!(matches!(ok, Ok(UploadResult::Stored(_))));
    // one byte less than the body needs
    let mut store2 = Store::new();
    let rejected = handle_upload(&ct, &body, &UploadLimits::new(n - 1, n - 1), &mut store2);
    assert!(matches!(
        rejected,
        Ok(UploadResult::Rejected(ClientErrorKind::FileTooLarge))
    ));
    assert_eq!(store2.count(), 0);
}

#[test]
fn first_of_two_file_fields_is_committed() {
    let ct = content_type("B");
    let mut body = Vec::new();
    push_str(&mut body, "--B\r\n");
    push_str(
        &mut body,
        "Content-Disposition: form-data; name=\"file\"; filename=\"one.txt\"\r\n\r\n",
    );
    push_str(&mut body, "first");
    push_str(&mut body, "\r\n--B\r\n");
    push_str(
        &mut body,
        "Content-Disposition: form-data; name=\"file\"; filename=\"two.txt\"\r\n\r\n",
    );
    push_str(&mut body, "second");
    push_str(&mut body, "\r\n--B--");
    let limits = UploadLimits::new(1000, 1000);
    let mut store = Store::new();
    let r = handle_upload(&ct, &body, &limits, &mut store);
    match r {
        Ok(UploadResult::Stored(name)) => assert_eq!(name, b"one.txt".to_vec()),
        _ => panic!("expected Stored"),
    }
    assert_eq!(*store.get(&b"one.txt".to_vec()).unwrap(), b"first".to_vec());
    assert!(store.get(&b"two.txt".to_vec()).is_none());
}
