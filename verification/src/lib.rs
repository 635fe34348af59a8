//! Chunked file uploader: splits a byte range of a seekable source into
//! fixed-size chunks and drives one HTTP request per chunk.
//!
//! The crate is organised as three layers:
//! - [`planner`]: pure range arithmetic — which `(offset_start, offset_end)`
//!   pairs cover the requested range;
//! - [`headers`]: rendering of the `Content-Range` header for each chunk;
//! - [`engine`]: the transfer state machine that owns the termination policy.
//!   The caller performs the actual seek/read/send operations and feeds each
//!   result back in; the engine decides what happens next.

pub mod engine;
pub mod headers;
pub mod planner;
