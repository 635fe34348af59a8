//! Rendering of the `Content-Range` header sent with each chunk.
//!
//! The header value has the exact shape `bytes <start>-<end>/<total>`, where
//! `<total>` is the configured end of the upload range (not necessarily the
//! source's full length). The decimal rendering is written out and verified
//! here rather than taken from a formatter, so the header text is pinned down
//! character by character.

use vstd::prelude::*;
use vstd::string::StringExecFns;

verus! {

/// The decimal digit character for `d`.
pub open spec fn spec_digit_char(d: int) -> char {
    if d == 0 {
        '0'
    } else if d == 1 {
        '1'
    } else if d == 2 {
        '2'
    } else if d == 3 {
        '3'
    } else if d == 4 {
        '4'
    } else if d == 5 {
        '5'
    } else if d == 6 {
        '6'
    } else if d == 7 {
        '7'
    } else if d == 8 {
        '8'
    } else {
        '9'
    }
}

/// The decimal text of `n`: most significant digit first, no leading zeros,
/// a single `'0'` for zero.
pub open spec fn spec_decimal(n: int) -> Seq<char>
    decreases n,
{
    if n < 10 {
        seq![spec_digit_char(n)]
    } else {
        spec_decimal(n / 10) + seq![spec_digit_char(n % 10)]
    }
}

/// The `Content-Range` value for the chunk `[start, end)` of a transfer whose
/// configured range ends at `total`.
pub open spec fn spec_content_range(start: int, end: int, total: int) -> Seq<char> {
    "bytes "@ + spec_decimal(start) + "-"@ + spec_decimal(end) + "/"@ + spec_decimal(total)
}

/// The one-character string for the decimal digit `d`.
fn digit_str(d: u64) -> (r: &'static str)
    requires
        d < 10,
    ensures
        r@.len() == 1,
        r@[0] == spec_digit_char(d as int),
{
    proof {
        reveal_strlit("0");
        reveal_strlit("1");
        reveal_strlit("2");
        reveal_strlit("3");
        reveal_strlit("4");
        reveal_strlit("5");
        reveal_strlit("6");
        reveal_strlit("7");
        reveal_strlit("8");
        reveal_strlit("9");
    }
    if d == 0 {
        "0"
    } else if d == 1 {
        "1"
    } else if d == 2 {
        "2"
    } else if d == 3 {
        "3"
    } else if d == 4 {
        "4"
    } else if d == 5 {
        "5"
    } else if d == 6 {
        "6"
    } else if d == 7 {
        "7"
    } else if d == 8 {
        "8"
    } else {
        "9"
    }
}

/// The decimal text of `n`.
pub fn u64_decimal(n: u64) -> (r: String)
    ensures
        r@ == spec_decimal(n as int),
    decreases n,
{
    if n < 10 {
        let s = String::from_str(digit_str(n));
        proof {
            assert(s@ =~= spec_decimal(n as int));
        }
        s
    } else {
        let mut s = u64_decimal(n / 10);
        s.append(digit_str(n % 10));
        proof {
            assert(s@ =~= spec_decimal(n as int));
        }
        s
    }
}

/// Renders the `Content-Range` value sent with the chunk `[start, end)`.
pub fn content_range_header(start: u64, end: u64, total: u64) -> (r: String)
    ensures
        r@ == spec_content_range(start as int, end as int, total as int),
{
    let mut s = String::from_str("bytes ");
    s.append(u64_decimal(start).as_str());
    s.append("-");
    s.append(u64_decimal(end).as_str());
    s.append("/");
    s.append(u64_decimal(total).as_str());
    proof {
        assert(s@ =~= spec_content_range(start as int, end as int, total as int));
    }
    s
}

} // verus!
