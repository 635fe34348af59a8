use chunk_uploader::engine::{
    zero_buffer, Action, HttpMethod, Phase, TransferEngine, TransferError, TransferOutcome,
    UploadRequest,
};

fn request(range_start: u64, range_end: u64, chunk_size: u64) -> UploadRequest {
    UploadRequest {
        range_start,
        range_end,
        chunk_size,
        destination_url: "http://example.invalid/upload".to_string(),
        http_method: HttpMethod::Put,
    }
}

fn read_bounds(a: &Action) -> (u64, u64) {
    match a {
        Action::Read {
            offset_start,
            offset_end,
        } => (*offset_start, *offset_end),
        other => panic!("expected a read action, got {other:?}"),
    }
}

fn sent_header(a: &Action) -> String {
    match a {
        Action::Send { content_range } => content_range.clone(),
        other => panic!("expected a send action, got {other:?}"),
    }
}

#[test]
fn run_splits_ten_million_into_two_full_chunks() {
    let (mut e, a) = TransferEngine::new(request(0, 10_000_000, 5_000_000));
    assert!(matches!(a, Action::Seek { offset: 0 }));

    let a = e.on_seek_result(Ok(()));
    assert_eq!(read_bounds(&a), (0, 5_000_000));
    assert_eq!(zero_buffer(5_000_000).len(), 5_000_000);

    let a = e.on_read_result(Ok(5_000_000));
    assert_eq!(sent_header(&a), "bytes 0-5000000/10000000");

    let a = e.on_response(200, None);
    assert_eq!(read_bounds(&a), (5_000_000, 10_000_000));

    let a = e.on_read_result(Ok(5_000_000));
    assert_eq!(sent_header(&a), "bytes 5000000-10000000/10000000");

    let a = e.on_response(200, None);
    assert!(matches!(a, Action::Finished));
    assert_eq!(e.requests_issued, 2);
    assert!(matches!(e.into_outcome(), TransferOutcome::Success));
}

#[test]
fn run_of_150_bytes_by_100_stops_after_short_second_chunk() {
    let (mut e, _) = TransferEngine::new(request(100, 250, 100));
    let a = e.on_seek_result(Ok(()));
    assert_eq!(read_bounds(&a), (100, 200));

    let a = e.on_read_result(Ok(100));
    assert_eq!(sent_header(&a), "bytes 100-200/250");

    let a = e.on_response(200, None);
    let (s, t) = read_bounds(&a);
    assert_eq!((s, t), (200, 250));
    assert_eq!((t - s) as usize, zero_buffer((t - s) as usize).len());
    assert_eq!(t - s, 50);

    // 50 bytes read: shorter than the chunk size, so this chunk is the last.
    let a = e.on_read_result(Ok(50));
    assert_eq!(sent_header(&a), "bytes 200-250/250");

    let a = e.on_response(200, None);
    assert!(matches!(a, Action::Finished));
    assert_eq!(e.requests_issued, 2);
    assert!(matches!(e.into_outcome(), TransferOutcome::Success));
}

#[test]
fn run_with_chunk_larger_than_range_sends_one_request() {
    let (mut e, _) = TransferEngine::new(request(0, 10, 1000));
    let a = e.on_seek_result(Ok(()));
    assert_eq!(read_bounds(&a), (0, 10));

    let a = e.on_read_result(Ok(10));
    assert_eq!(sent_header(&a), "bytes 0-10/10");

    let a = e.on_response(200, None);
    assert!(matches!(a, Action::Finished));
    assert_eq!(e.requests_issued, 1);
    assert!(matches!(e.into_outcome(), TransferOutcome::Success));
}

#[test]
fn empty_range_succeeds_with_zero_requests() {
    let (mut e, a) = TransferEngine::new(request(7, 7, 100));
    assert!(matches!(a, Action::Seek { offset: 7 }));
    let a = e.on_seek_result(Ok(()));
    assert!(matches!(a, Action::Finished));
    assert_eq!(e.requests_issued, 0);
    assert!(matches!(e.into_outcome(), TransferOutcome::Success));
}

#[test]
fn short_read_mid_range_still_sends_then_terminates() {
    let (mut e, _) = TransferEngine::new(request(0, 300, 100));
    let a = e.on_seek_result(Ok(()));
    assert_eq!(read_bounds(&a), (0, 100));

    // The source is exhausted early: only 40 of 100 bytes come back. The
    // chunk's request is still issued, and then the run ends in success,
    // whatever range remains.
    let a = e.on_read_result(Ok(40));
    assert_eq!(sent_header(&a), "bytes 0-100/300");

    let a = e.on_response(200, None);
    assert!(matches!(a, Action::Finished));
    assert_eq!(e.requests_issued, 1);
    assert!(matches!(e.into_outcome(), TransferOutcome::Success));
}

#[test]
fn zero_byte_read_still_sends_then_terminates() {
    let (mut e, _) = TransferEngine::new(request(0, 300, 100));
    e.on_seek_result(Ok(()));
    let a = e.on_read_result(Ok(0));
    assert_eq!(sent_header(&a), "bytes 0-100/300");
    let a = e.on_response(200, None);
    assert!(matches!(a, Action::Finished));
    assert_eq!(e.requests_issued, 1);
    assert!(matches!(e.into_outcome(), TransferOutcome::Success));
}

#[test]
fn status_503_fails_run_and_issues_no_further_request() {
    let (mut e, _) = TransferEngine::new(request(0, 300, 100));
    e.on_seek_result(Ok(()));
    let a = e.on_read_result(Ok(100));
    assert_eq!(sent_header(&a), "bytes 0-100/300");

    let a = e.on_response(503, Some("Service Unavailable".to_string()));
    assert!(matches!(a, Action::Finished));
    assert!(matches!(e.phase, Phase::Done { .. }));
    assert_eq!(e.requests_issued, 1);
    match e.into_outcome() {
        TransferOutcome::Failure(TransferError::HttpStatus { body }) => {
            assert_eq!(body, "Service Unavailable");
        }
        other => panic!("expected an HTTP status failure, got {other:?}"),
    }
}

#[test]
fn unreadable_error_body_gets_placeholder_text() {
    let (mut e, _) = TransferEngine::new(request(0, 10, 10));
    e.on_seek_result(Ok(()));
    e.on_read_result(Ok(10));
    let a = e.on_response(500, None);
    assert!(matches!(a, Action::Finished));
    match e.into_outcome() {
        TransferOutcome::Failure(err @ TransferError::HttpStatus { .. }) => {
            assert_eq!(
                err.describe(),
                "Http Error uploading chunk: Response body is empty"
            );
        }
        other => panic!("expected an HTTP status failure, got {other:?}"),
    }
}

#[test]
fn seek_failure_is_fatal_source_io_error() {
    let (mut e, _) = TransferEngine::new(request(0, 100, 10));
    let a = e.on_seek_result(Err("permission denied".to_string()));
    assert!(matches!(a, Action::Finished));
    assert_eq!(e.requests_issued, 0);
    match e.into_outcome() {
        TransferOutcome::Failure(err @ TransferError::SourceIo { .. }) => {
            assert_eq!(err.describe(), "Error reading file: permission denied");
        }
        other => panic!("expected a source I/O failure, got {other:?}"),
    }
}

#[test]
fn read_failure_is_fatal_source_io_error() {
    let (mut e, _) = TransferEngine::new(request(0, 100, 10));
    e.on_seek_result(Ok(()));
    let a = e.on_read_result(Err("device gone".to_string()));
    assert!(matches!(a, Action::Finished));
    assert_eq!(e.requests_issued, 0);
    match e.into_outcome() {
        TransferOutcome::Failure(TransferError::SourceIo { message }) => {
            assert_eq!(message, "device gone");
        }
        other => panic!("expected a source I/O failure, got {other:?}"),
    }
}

#[test]
fn transport_failure_is_fatal() {
    let (mut e, _) = TransferEngine::new(request(0, 100, 10));
    e.on_seek_result(Ok(()));
    e.on_read_result(Ok(10));
    let a = e.on_transport_error("connection refused".to_string());
    assert!(matches!(a, Action::Finished));
    assert_eq!(e.requests_issued, 1);
    match e.into_outcome() {
        TransferOutcome::Failure(err @ TransferError::Transport { .. }) => {
            assert_eq!(err.describe(), "Error uploading chunk: connection refused");
        }
        other => panic!("expected a transport failure, got {other:?}"),
    }
}

#[test]
fn zero_buffer_is_zero_filled() {
    let b = zero_buffer(1024);
    assert_eq!(b.len(), 1024);
    assert!(b.iter().all(|&x| x == 0));
    assert!(zero_buffer(0).is_empty());
}
