use chunk_uploader::headers::{content_range_header, u64_decimal};

#[test]
fn decimal_renders_small_numbers() {
    assert_eq!(u64_decimal(0), "0");
    assert_eq!(u64_decimal(7), "7");
    assert_eq!(u64_decimal(10), "10");
    assert_eq!(u64_decimal(250), "250");
}

#[test]
fn decimal_renders_largest_u64() {
    assert_eq!(u64_decimal(u64::MAX), "18446744073709551615");
}

#[test]
fn content_range_has_bytes_framing() {
    assert_eq!(content_range_header(100, 200, 250), "bytes 100-200/250");
    assert_eq!(content_range_header(200, 250, 250), "bytes 200-250/250");
    assert_eq!(content_range_header(0, 10, 10), "bytes 0-10/10");
}

#[test]
fn content_range_total_is_range_end_not_file_length() {
    // The trailing figure is the configured range end, whatever the source's
    // full length may be.
    assert_eq!(
        content_range_header(0, 5_000_000, 10_000_000),
        "bytes 0-5000000/10000000"
    );
    assert_eq!(
        content_range_header(5_000_000, 10_000_000, 10_000_000),
        "bytes 5000000-10000000/10000000"
    );
}
