use quic_speed::server::{
    count_upload, handle_request, parse_len, respond, route, upload_failed, Body, ContentType,
    DownloadBody, ErrorReason, HttpVersion, Method, Response, Route, UploadCounter, CHUNK_SIZE,
    MAX_DOWNLOAD,
};

fn drain(len: u64) -> Vec<usize> {
    let mut body = DownloadBody::new(len);
    let mut chunks = Vec::new();
    while let Some(c) = body.next_chunk() {
        chunks.push(c);
    }
    assert_eq!(body.remaining(), 0);
    assert!(body.next_chunk().is_none());
    chunks
}

#[test]
fn download_100000_is_ok_with_length() {
    let r = handle_request(Method::Get, b"/download/100000", HttpVersion::Http1).unwrap();
    assert_eq!(r.status, 200);
    assert_eq!(r.content_length, Some(100000));
    assert_eq!(r.content_type, ContentType::OctetStream);
    assert!(r.no_store);
    assert_eq!(r.body, Body::Zeros(100000));
    let chunks = drain(100000);
    assert_eq!(chunks, vec![65536, 34464]);
    assert_eq!(chunks.iter().sum::<usize>(), 100000);
}

#[test]
fn download_2000000000_is_too_large() {
    let r = handle_request(Method::Get, b"/download/2000000000", HttpVersion::Http1).unwrap();
    assert_eq!(r.status, 400);
    assert_eq!(r.body, Body::Error(ErrorReason::TooLarge));
    assert_eq!(r.content_length, None);
    assert_eq!(r.content_type, ContentType::Json);
    assert_eq!(ErrorReason::TooLarge.message(), "too large");
}

#[test]
fn download_beyond_64_bits_is_too_large() {
    let r = handle_request(Method::Get, b"/download/18446744073709551616", HttpVersion::Http1)
        .unwrap();
    assert_eq!(r.status, 400);
    assert_eq!(r.body, Body::Error(ErrorReason::TooLarge));
    assert_eq!(r.content_length, None);
}

#[test]
fn download_limit_is_inclusive() {
    assert_eq!(route(Method::Get, b"/download/1073741824"), Route::Download(MAX_DOWNLOAD));
    assert_eq!(route(Method::Get, b"/download/1073741825"), Route::TooLarge);
    let chunks = drain(MAX_DOWNLOAD);
    assert_eq!(chunks.len(), 16384);
    assert!(chunks.iter().all(|&c| c as u64 == CHUNK_SIZE));
}

#[test]
fn download_chunks_sum_to_length() {
    for n in [0u64, 1, 65535, 65536, 65537, 131072, 200001] {
        let chunks = drain(n);
        assert_eq!(chunks.iter().map(|&c| c as u64).sum::<u64>(), n);
        assert!(chunks.iter().all(|&c| c > 0 && c as u64 <= CHUNK_SIZE));
    }
    assert!(drain(0).is_empty());
}

#[test]
fn download_suffix_parsing() {
    assert_eq!(route(Method::Get, b"/download/"), Route::Download(0));
    assert_eq!(route(Method::Get, b"/download/abc"), Route::Download(0));
    assert_eq!(route(Method::Get, b"/download/12x"), Route::Download(0));
    assert_eq!(route(Method::Get, b"/download/+42"), Route::Download(42));
    assert_eq!(route(Method::Get, b"/download/-1"), Route::Download(0));
    assert_eq!(route(Method::Get, b"/download/007"), Route::Download(7));
    assert_eq!(parse_len(b"18446744073709551615"), u64::MAX);
    assert_eq!(parse_len(b"18446744073709551616"), u64::MAX);
    assert_eq!(parse_len(b"+99999999999999999999999999"), u64::MAX);
    assert_eq!(parse_len(b"99999999999999999999x"), 0);
    assert_eq!(parse_len(b"+"), 0);
    assert_eq!(parse_len(b""), 0);
    assert_eq!(parse_len(b"65536"), 65536);
    assert_eq!(route(Method::Get, b"/download/99999999999999999999"), Route::TooLarge);
    assert_eq!(route(Method::Get, b"/download/18446744073709551616"), Route::TooLarge);
    assert_eq!(route(Method::Get, b"/download/99999999999999999999x"), Route::Download(0));
}

#[test]
fn index_page() {
    let r = handle_request(Method::Get, b"/", HttpVersion::Http2).unwrap();
    assert_eq!(r.status, 200);
    assert_eq!(r.content_type, ContentType::Html);
    assert_eq!(r.body, Body::Index);
    assert_eq!(r.version.as_str(), "HTTP/2");
    assert_eq!(ContentType::Html.as_str(), "text/html");
}

#[test]
fn unmatched_path_is_not_found() {
    for m in [Method::Get, Method::Post, Method::Other] {
        let r = handle_request(m, b"/nothing", HttpVersion::Http1).unwrap();
        assert_eq!(r.status, 404);
        assert_eq!(r.body, Body::Error(ErrorReason::NotFound));
    }
    assert_eq!(route(Method::Get, b"/download"), Route::NotFound);
    assert_eq!(ErrorReason::NotFound.message(), "not found");
}

#[test]
fn wrong_method_is_not_allowed() {
    assert_eq!(route(Method::Post, b"/"), Route::MethodNotAllowed);
    assert_eq!(route(Method::Get, b"/upload"), Route::MethodNotAllowed);
    assert_eq!(route(Method::Other, b"/upload"), Route::MethodNotAllowed);
    assert_eq!(route(Method::Post, b"/download/5"), Route::MethodNotAllowed);
    let r = respond(Route::MethodNotAllowed, HttpVersion::Http3).unwrap();
    assert_eq!(r.status, 405);
    assert_eq!(r.version, HttpVersion::Http3);
    assert_eq!(ErrorReason::MethodNotAllowed.message(), "method not allowed");
}

#[test]
fn upload_42_bytes() {
    assert_eq!(route(Method::Post, b"/upload"), Route::Upload);
    assert!(handle_request(Method::Post, b"/upload", HttpVersion::Http1).is_none());
    let mut c = UploadCounter::new();
    c.add_frame(40);
    c.add_frame(2);
    let r = c.finish(HttpVersion::Http1);
    assert_eq!(r.status, 200);
    assert_eq!(r.body, Body::Uploaded(42));
    assert_eq!(r.content_type, ContentType::Json);
}

#[test]
fn upload_count_ignores_chunking() {
    assert_eq!(count_upload(&vec![42]), 42);
    assert_eq!(count_upload(&vec![1; 42]), 42);
    assert_eq!(count_upload(&vec![10, 0, 32]), 42);
    assert_eq!(count_upload(&vec![]), 0);
}

#[test]
fn upload_count_saturates() {
    let mut c = UploadCounter::new();
    c.add_frame(usize::MAX);
    c.add_frame(usize::MAX);
    assert_eq!(c.total(), u64::MAX);
}

#[test]
fn upload_frame_error() {
    let r: Response = upload_failed(HttpVersion::Http1);
    assert_eq!(r.status, 400);
    assert_eq!(r.body, Body::Error(ErrorReason::FrameError));
    assert_eq!(ErrorReason::FrameError.message(), "frame error");
}

#[test]
fn version_labels() {
    assert_eq!(HttpVersion::Http1.as_str(), "HTTP/1.1");
    assert_eq!(HttpVersion::Http2.as_str(), "HTTP/2");
    assert_eq!(HttpVersion::Http3.as_str(), "HTTP/3");
    assert_eq!(ContentType::Json.as_str(), "application/json");
    assert_eq!(ContentType::OctetStream.as_str(), "application/octet-stream");
}
