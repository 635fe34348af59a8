//! The transfer state machine.
//!
//! The engine owns every decision of a run — which chunk comes next, what
//! `Content-Range` value frames it, when the run stops, and with which
//! outcome — while the caller performs the outside work: it seeks and reads
//! the source and sends the HTTP requests, feeding each result back in.
//!
//! A run goes `Seeking → Reading → Sending → Reading → … → Done`. Every
//! transition is a method with a contract, so the termination policy (a
//! short read ends the run after its request; a non-200 status or any I/O or
//! transport error aborts it at once) is stated and proved, not just coded.

use crate::headers::{content_range_header, spec_content_range};
use crate::planner::{
    lemma_plan_index, next_chunk_end, spec_chunk_at, spec_chunk_count, spec_chunk_end, spec_plan,
};
use vstd::arithmetic::div_mod::{
    lemma_div_is_ordered, lemma_div_multiples_vanish, lemma_div_plus_one,
    lemma_fundamental_div_mod_converse_div,
};
use vstd::prelude::*;
use vstd::string::StringExecFns;

verus! {

/// A standard HTTP verb for the per-chunk request.
#[derive(Clone, Copy, PartialEq, Eq, Structural, Debug)]
pub enum HttpMethod {
    Get,
    Head,
    Post,
    Put,
    Patch,
    Delete,
    Options,
}

/// The caller-supplied configuration of one run. The caller validates it
/// (`chunk_size > 0`, `range_start <= range_end <=` source length) before
/// the engine is built.
pub struct UploadRequest {
    /// First byte of the source to upload (inclusive).
    pub range_start: u64,
    /// End of the range to upload (exclusive).
    pub range_end: u64,
    /// Planned size of each chunk; the final chunk may be shorter.
    pub chunk_size: u64,
    /// Target of every per-chunk request.
    pub destination_url: String,
    /// Verb of every per-chunk request.
    pub http_method: HttpMethod,
}

impl UploadRequest {
    /// What the engine assumes of its configuration.
    pub open spec fn valid(self) -> bool {
        &&& 0 < self.chunk_size
        &&& self.range_start <= self.range_end
    }
}

/// Why a run failed. Each kind is fatal: the run ends with it at once.
#[derive(Debug)]
pub enum TransferError {
    /// Seeking or reading the source failed; holds the underlying message.
    SourceIo { message: String },
    /// Sending a request failed below HTTP; holds the underlying message.
    Transport { message: String },
    /// A request came back with a status other than 200; holds the response
    /// body text, or a placeholder when the body could not be read.
    HttpStatus { body: String },
}

/// The message text reported for a failure: a fixed prefix naming the kind,
/// then the underlying cause.
pub open spec fn spec_describe(e: TransferError) -> Seq<char> {
    match e {
        TransferError::SourceIo { message } => "Error reading file: "@ + message@,
        TransferError::Transport { message } => "Error uploading chunk: "@ + message@,
        TransferError::HttpStatus { body } => "Http Error uploading chunk: "@ + body@,
    }
}

impl TransferError {
    /// Renders the failure message shown to the caller.
    pub fn describe(&self) -> (r: String)
        ensures
            r@ == spec_describe(*self),
    {
        match self {
            TransferError::SourceIo { message } => {
                let mut s = String::from_str("Error reading file: ");
                s.append(message.as_str());
                s
            },
            TransferError::Transport { message } => {
                let mut s = String::from_str("Error uploading chunk: ");
                s.append(message.as_str());
                s
            },
            TransferError::HttpStatus { body } => {
                let mut s = String::from_str("Http Error uploading chunk: ");
                s.append(body.as_str());
                s
            },
        }
    }
}

/// The terminal result of a run.
#[derive(Debug)]
pub enum TransferOutcome {
    Success,
    Failure(TransferError),
}

/// What the caller must do next with the outside world.
#[derive(Debug)]
pub enum Action {
    /// Seek the source to this absolute offset.
    Seek { offset: u64 },
    /// Read the next `offset_end - offset_start` bytes of the source into a
    /// fresh zeroed buffer of exactly that length.
    Read { offset_start: u64, offset_end: u64 },
    /// Send one request with this `Content-Range` value and the buffer as
    /// read — in full, zero-padded past a short read.
    Send { content_range: String },
    /// The run is over; the engine holds the outcome.
    Finished,
}

/// Where a run stands between two caller operations.
#[derive(Debug)]
pub enum Phase {
    /// The initial seek to `range_start` is under way.
    Seeking,
    /// The chunk `[cursor, chunk_end)` is to be read.
    Reading { cursor: u64, chunk_end: u64 },
    /// The chunk `[cursor, chunk_end)` was read (`bytes_read` bytes came
    /// back) and its request is under way.
    Sending { cursor: u64, chunk_end: u64, bytes_read: u64 },
    /// The run ended with this outcome.
    Done { outcome: TransferOutcome },
}

/// The transfer state machine of one run.
pub struct TransferEngine {
    /// First byte of the range (inclusive).
    pub range_start: u64,
    /// End of the range (exclusive).
    pub range_end: u64,
    /// Planned chunk size.
    pub chunk_size: u64,
    /// Target of every request.
    pub destination_url: String,
    /// Verb of every request.
    pub http_method: HttpMethod,
    /// How many requests have been handed to the caller so far.
    pub requests_issued: u64,
    /// Where the run stands.
    pub phase: Phase,
}

/// Holds exactly when `o` is a failure of the source-I/O kind carrying
/// `message`.
pub open spec fn is_source_io_failure(o: TransferOutcome, message: Seq<char>) -> bool {
    &&& o matches TransferOutcome::Failure(e)
    &&& e matches TransferError::SourceIo { message: m }
    &&& m@ == message
}

/// Holds exactly when `o` is a failure of the transport kind carrying
/// `message`.
pub open spec fn is_transport_failure(o: TransferOutcome, message: Seq<char>) -> bool {
    &&& o matches TransferOutcome::Failure(e)
    &&& e matches TransferError::Transport { message: m }
    &&& m@ == message
}

/// Holds exactly when `o` is a failure of the HTTP-status kind carrying
/// `body`.
pub open spec fn is_http_status_failure(o: TransferOutcome, body: Seq<char>) -> bool {
    &&& o matches TransferOutcome::Failure(e)
    &&& e matches TransferError::HttpStatus { body: b }
    &&& b@ == body
}

impl TransferEngine {
    /// The engine's invariant: the configuration is valid, and the pending
    /// chunk — when one is pending — is exactly where the plan puts it after
    /// the requests issued so far.
    pub open spec fn wf(self) -> bool {
        &&& 0 < self.chunk_size
        &&& self.range_start <= self.range_end
        &&& match self.phase {
            Phase::Seeking => self.requests_issued == 0,
            Phase::Reading { cursor, chunk_end } => {
                &&& self.range_start <= cursor < self.range_end
                &&& chunk_end == spec_chunk_end(
                    cursor as int,
                    self.chunk_size as int,
                    self.range_end as int,
                )
                &&& cursor as int == self.range_start + self.requests_issued * self.chunk_size
            },
            Phase::Sending { cursor, chunk_end, bytes_read } => {
                &&& self.range_start <= cursor < self.range_end
                &&& chunk_end == spec_chunk_end(
                    cursor as int,
                    self.chunk_size as int,
                    self.range_end as int,
                )
                &&& self.requests_issued >= 1
                &&& cursor as int == self.range_start + (self.requests_issued - 1)
                    * self.chunk_size
            },
            Phase::Done { .. } => true,
        }
    }

    /// The engine's configuration, unchanged by every transition.
    pub open spec fn same_config(self, other: TransferEngine) -> bool {
        &&& self.range_start == other.range_start
        &&& self.range_end == other.range_end
        &&& self.chunk_size == other.chunk_size
        &&& self.destination_url@ == other.destination_url@
        &&& self.http_method == other.http_method
    }

    /// Builds the engine for one run. The first action is always the one
    /// absolute seek to `range_start`.
    pub fn new(request: UploadRequest) -> (r: (TransferEngine, Action))
        requires
            request.valid(),
        ensures
            r.0.wf(),
            r.0.range_start == request.range_start,
            r.0.range_end == request.range_end,
            r.0.chunk_size == request.chunk_size,
            r.0.destination_url@ == request.destination_url@,
            r.0.http_method == request.http_method,
            r.0.requests_issued == 0,
            r.0.phase is Seeking,
            r.1 matches Action::Seek { offset } && offset == request.range_start,
    {
        let engine = TransferEngine {
            range_start: request.range_start,
            range_end: request.range_end,
            chunk_size: request.chunk_size,
            destination_url: request.destination_url,
            http_method: request.http_method,
            requests_issued: 0,
            phase: Phase::Seeking,
        };
        let offset = request.range_start;
        (engine, Action::Seek { offset })
    }

    /// Feeds back the result of the initial seek. A failure aborts the run
    /// as a source-I/O error; on success the run either ends at once (an
    /// empty range plans zero chunks) or asks for the first chunk.
    pub fn on_seek_result(&mut self, result: Result<(), String>) -> (a: Action)
        requires
            old(self).wf(),
            old(self).phase is Seeking,
        ensures
            final(self).wf(),
            old(self).same_config(*final(self)),
            final(self).requests_issued == 0,
            result matches Err(m) ==> {
                &&& final(self).phase matches Phase::Done { outcome }
                &&& is_source_io_failure(outcome, m@)
                &&& a is Finished
            },
            result is Ok && old(self).range_start == old(self).range_end ==> {
                &&& final(self).phase matches Phase::Done { outcome }
                &&& outcome is Success
                &&& a is Finished
            },
            result is Ok && old(self).range_start < old(self).range_end ==> {
                &&& final(self).phase matches Phase::Reading { cursor, chunk_end }
                &&& cursor == old(self).range_start
                &&& chunk_end == spec_chunk_end(
                    old(self).range_start as int,
                    old(self).chunk_size as int,
                    old(self).range_end as int,
                )
                &&& a matches Action::Read { offset_start, offset_end }
                &&& offset_start == cursor
                &&& offset_end == chunk_end
            },
    {
        match result {
            Err(message) => {
                self.phase = Phase::Done {
                    outcome: TransferOutcome::Failure(TransferError::SourceIo { message }),
                };
                Action::Finished
            },
            Ok(()) => {
                if self.range_start == self.range_end {
                    self.phase = Phase::Done { outcome: TransferOutcome::Success };
                    Action::Finished
                } else {
                    let cursor = self.range_start;
                    let chunk_end = next_chunk_end(cursor, self.chunk_size, self.range_end);
                    self.phase = Phase::Reading { cursor, chunk_end };
                    proof {
                        assert(self.requests_issued * self.chunk_size == 0) by {
                            vstd::arithmetic::mul::lemma_mul_basics(self.chunk_size as int);
                        }
                    }
                    Action::Read { offset_start: cursor, offset_end: chunk_end }
                }
            },
        }
    }

    /// Feeds back the chunk read: `Ok(n)` with the count of bytes actually
    /// read, or the I/O error. A read failure aborts the run; after any
    /// successful read — short or not — the chunk's request is issued, with
    /// the exact `Content-Range` value `bytes <cursor>-<chunk_end>/<range_end>`.
    pub fn on_read_result(&mut self, result: Result<u64, String>) -> (a: Action)
        requires
            old(self).wf(),
            old(self).phase is Reading,
        ensures
            final(self).wf(),
            old(self).same_config(*final(self)),
            result matches Err(m) ==> {
                &&& final(self).phase matches Phase::Done { outcome }
                &&& is_source_io_failure(outcome, m@)
                &&& a is Finished
                &&& final(self).requests_issued == old(self).requests_issued
            },
            result matches Ok(n) ==> {
                &&& final(self).phase matches Phase::Sending { cursor, chunk_end, bytes_read }
                &&& cursor == old(self).phase->Reading_cursor
                &&& chunk_end == old(self).phase->Reading_chunk_end
                &&& bytes_read == n
                &&& final(self).requests_issued == old(self).requests_issued + 1
                &&& a matches Action::Send { content_range }
                &&& content_range@ == spec_content_range(
                    cursor as int,
                    chunk_end as int,
                    old(self).range_end as int,
                )
            },
    {
        match result {
            Err(message) => {
                self.phase = Phase::Done {
                    outcome: TransferOutcome::Failure(TransferError::SourceIo { message }),
                };
                Action::Finished
            },
            Ok(n) => {
                let (cursor, chunk_end): (u64, u64) = match &self.phase {
                    Phase::Reading { cursor, chunk_end } => (*cursor, *chunk_end),
                    _ => unreached(),
                };
                proof {
                    // `requests_issued * chunk_size < range_end - range_start`
                    // bounds the counter away from overflow.
                    assert(self.requests_issued <= self.requests_issued * self.chunk_size) by {
                        if self.requests_issued > 0 {
                            vstd::arithmetic::mul::lemma_mul_increases(
                                self.chunk_size as int,
                                self.requests_issued as int,
                            );
                            vstd::arithmetic::mul::lemma_mul_is_commutative(
                                self.chunk_size as int,
                                self.requests_issued as int,
                            );
                        } else {
                            vstd::arithmetic::mul::lemma_mul_basics(self.chunk_size as int);
                        }
                    }
                }
                self.requests_issued = self.requests_issued + 1;
                let content_range = content_range_header(cursor, chunk_end, self.range_end);
                self.phase = Phase::Sending { cursor, chunk_end, bytes_read: n };
                Action::Send { content_range }
            },
        }
    }

    /// Feeds back a transport failure of the pending request: the run aborts
    /// at once with a transport error; no retry and no further request.
    pub fn on_transport_error(&mut self, message: String) -> (a: Action)
        requires
            old(self).wf(),
            old(self).phase is Sending,
        ensures
            final(self).wf(),
            old(self).same_config(*final(self)),
            final(self).requests_issued == old(self).requests_issued,
            final(self).phase matches Phase::Done { outcome } && is_transport_failure(
                outcome,
                message@,
            ),
            a is Finished,
    {
        self.phase = Phase::Done {
            outcome: TransferOutcome::Failure(TransferError::Transport { message }),
        };
        Action::Finished
    }

    /// Feeds back the pending request's response: its status code and its
    /// body text (`None` when the body could not be read).
    ///
    /// A status other than 200 aborts the run at once, so no request for a
    /// later chunk is ever issued after a failed one. On 200, a short read
    /// (`bytes_read < chunk_size`, or zero) makes this chunk the last and
    /// the run succeeds; otherwise the cursor advances by one full chunk and
    /// the run either asks for the next chunk or — the range being
    /// exhausted — succeeds.
    pub fn on_response(&mut self, status: u16, body: Option<String>) -> (a: Action)
        requires
            old(self).wf(),
            old(self).phase is Sending,
        ensures
            final(self).wf(),
            old(self).same_config(*final(self)),
            final(self).requests_issued == old(self).requests_issued,
            status != 200 ==> {
                &&& final(self).phase matches Phase::Done { outcome }
                &&& match body {
                    Some(t) => is_http_status_failure(outcome, t@),
                    None => is_http_status_failure(outcome, "Response body is empty"@),
                }
                &&& a is Finished
            },
            status == 200 && (old(self).phase->Sending_bytes_read == 0
                || old(self).phase->Sending_bytes_read < old(self).chunk_size) ==> {
                &&& final(self).phase matches Phase::Done { outcome }
                &&& outcome is Success
                &&& a is Finished
            },
            status == 200 && old(self).phase->Sending_bytes_read >= old(self).chunk_size ==> {
                let next_cursor = old(self).phase->Sending_chunk_end;
                if next_cursor < old(self).range_end {
                    &&& final(self).phase matches Phase::Reading { cursor, chunk_end }
                    &&& cursor == next_cursor
                    &&& chunk_end == spec_chunk_end(
                        next_cursor as int,
                        old(self).chunk_size as int,
                        old(self).range_end as int,
                    )
                    &&& a matches Action::Read { offset_start, offset_end }
                    &&& offset_start == cursor
                    &&& offset_end == chunk_end
                } else {
                    // The range is exhausted: the run succeeds having issued
                    // exactly the planned number of requests.
                    &&& final(self).phase matches Phase::Done { outcome }
                    &&& outcome is Success
                    &&& a is Finished
                    &&& final(self).requests_issued as int == spec_chunk_count(
                        old(self).range_start as int,
                        old(self).range_end as int,
                        old(self).chunk_size as int,
                    )
                }
            },
    {
        if status != 200 {
            let text = match body {
                Some(t) => t,
                None => String::from_str("Response body is empty"),
            };
            self.phase = Phase::Done {
                outcome: TransferOutcome::Failure(TransferError::HttpStatus { body: text }),
            };
            Action::Finished
        } else {
            let (cursor, chunk_end, bytes_read): (u64, u64, u64) = match &self.phase {
                Phase::Sending { cursor, chunk_end, bytes_read } => (
                    *cursor,
                    *chunk_end,
                    *bytes_read,
                ),
                _ => unreached(),
            };
            if bytes_read == 0 || bytes_read < self.chunk_size {
                self.phase = Phase::Done { outcome: TransferOutcome::Success };
                Action::Finished
            } else if chunk_end < self.range_end {
                proof {
                    // A chunk that stops short of `range_end` is full-size,
                    // so the cursor advances by exactly one `chunk_size`.
                    vstd::arithmetic::mul::lemma_mul_is_distributive_add_other_way(
                        self.chunk_size as int,
                        self.requests_issued - 1,
                        1,
                    );
                }
                let next_end = next_chunk_end(chunk_end, self.chunk_size, self.range_end);
                self.phase = Phase::Reading { cursor: chunk_end, chunk_end: next_end };
                Action::Read { offset_start: chunk_end, offset_end: next_end }
            } else {
                proof {
                    // The last chunk reached `range_end`, so the requests
                    // issued — `k` — cover the range: `(k-1)·c < n <= k·c`,
                    // which makes `k` the plan's chunk count.
                    let c = self.chunk_size as int;
                    let n = self.range_end - self.range_start;
                    let k = self.requests_issued as int;
                    vstd::arithmetic::mul::lemma_mul_is_distributive_add_other_way(c, k - 1, 1);
                    assert((k - 1) * c + 1 * c == k * c);
                    assert((k - 1) * c < n <= k * c);
                    lemma_fundamental_div_mod_converse_div(n + c - 1, c, k, n + c - 1 - k * c);
                }
                self.phase = Phase::Done { outcome: TransferOutcome::Success };
                Action::Finished
            }
        }
    }

    /// Hands the terminal outcome out once the run is over.
    pub fn into_outcome(self) -> (o: TransferOutcome)
        requires
            self.phase is Done,
        ensures
            o == self.phase->outcome,
    {
        match self.phase {
            Phase::Done { outcome } => outcome,
            _ => unreached(),
        }
    }
}

/// The chunk a well-formed engine is about to read is exactly the chunk the
/// range plan puts after the requests issued so far: every request the
/// engine ever asks for follows the plan, in order.
pub proof fn lemma_pending_chunk_is_planned(e: TransferEngine)
    requires
        e.wf(),
        e.phase is Reading,
    ensures
        0 <= e.requests_issued < spec_plan(
            e.range_start as int,
            e.range_end as int,
            e.chunk_size as int,
        ).len(),
        spec_plan(e.range_start as int, e.range_end as int, e.chunk_size as int)[
            e.requests_issued as int] == (
        e.phase->Reading_cursor as int, e.phase->Reading_chunk_end as int),
{
    let start = e.range_start as int;
    let end = e.range_end as int;
    let c = e.chunk_size as int;
    let n = end - start;
    let k = e.requests_issued as int;
    lemma_plan_index(start, end, c);
    // `k * c < n`, so `k <= (n - 1) / c < spec_chunk_count`.
    assert((k * c) / c == k) by {
        lemma_div_multiples_vanish(k, c);
        vstd::arithmetic::mul::lemma_mul_is_commutative(k, c);
    }
    lemma_div_is_ordered(k * c, n - 1, c);
    lemma_div_plus_one(n - 1, c);
    assert(spec_chunk_count(start, end, c) == 1 + (n - 1) / c);
    assert(spec_plan(start, end, c)[k] == spec_chunk_at(start, end, c, k));
}

/// Allocates the chunk buffer: `len` zero bytes. The buffer is sent as
/// read, so bytes past a short read stay zero.
pub fn zero_buffer(len: usize) -> (r: Vec<u8>)
    ensures
        r@.len() == len,
        forall|i: int| 0 <= i < len ==> r@[i] == 0u8,
{
    let mut v: Vec<u8> = Vec::new();
    let mut i: usize = 0;
    while i < len
        invariant
            i <= len,
            v@.len() == i,
            forall|j: int| 0 <= j < i ==> v@[j] == 0u8,
        decreases len - i,
    {
        v.push(0u8);
        i = i + 1;
    }
    v
}

} // verus!
