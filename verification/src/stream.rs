//! Typed, pull-based, endless value streams over one counter.
//!
//! A stream borrows its query session for its whole lifetime, so a counter
//! can never be read after its session is gone. A pull is planned here —
//! the pacing to wait out and the collect to issue — and the native reply
//! is judged here; the waiting and the native calls happen outside the
//! library.

use vstd::prelude::*;

use crate::constants::ERROR_SUCCESS;
use crate::error::PdhError;
use crate::query::CollectReply;
use crate::query::FormattedValue;
use crate::query::PdhCounter;
use crate::query::PdhQuery;
use crate::query::ValueKind;

verus! {

/// What one pull does before the native read: wait out the configured
/// pacing, then issue one collect in the requested representation.
pub struct ReadRequest {
    /// Milliseconds to wait before collecting; none means collect at once.
    pub delay_ms: Option<u64>,
    /// The token of the query session to refresh.
    pub query: u64,
    /// The token of the counter to read.
    pub counter: u64,
    /// The subsystem's format code for the requested representation.
    pub format: u32,
}

/// A pull-based, endless, non-restartable sequence of readings over one
/// counter, bound to one session and one counter for its whole lifetime.
///
/// The first successful reading after a counter's creation is commonly a
/// meaningless transient, since the subsystem has not yet computed a rate
/// over an interval: a caller that needs a settled stream discards exactly
/// one initial reading itself. Without a configured delay, rapid repeated
/// reads are permitted but may return stale readings, since the subsystem
/// needs real elapsed time between samples.
pub struct CounterStream<'a> {
    /// The query session the counter is attached to.
    pub query: &'a PdhQuery,
    /// The counter this stream reads.
    pub counter: PdhCounter,
    /// Milliseconds to wait before each read; none reads at once.
    pub delay_ms: Option<u64>,
    /// The representation requested at each read.
    pub kind: ValueKind,
}

impl<'a> CounterStream<'a> {
    /// The stream's counter is bound to the stream's own session.
    pub open spec fn wf(&self) -> bool {
        self.counter.query == self.query.handle
    }

    /// Binds a stream to a session and one of its counters, with no pacing.
    pub fn new(query_handle: &'a PdhQuery, counter_handle: PdhCounter, kind: ValueKind) -> (r:
        Self)
        requires
            counter_handle.query == query_handle.handle,
        ensures
            r.wf(),
            r.query == query_handle,
            r.counter == counter_handle,
            r.delay_ms is None,
            r.kind == kind,
    {
        Self { query: query_handle, counter: counter_handle, delay_ms: None, kind }
    }

    /// Sets a fixed pacing delay before each read, so that rapid pulls do
    /// not outrun the subsystem's sampling.
    pub fn with_delay(self, delay_ms: u64) -> (r: Self)
        ensures
            r.query == self.query,
            r.counter == self.counter,
            r.kind == self.kind,
            r.delay_ms == Some(delay_ms),
    {
        Self { delay_ms: Some(delay_ms), ..self }
    }

    /// Plans one pull: exactly the configured pacing — no wait at all when
    /// no delay is configured — then one collect of this stream's counter
    /// in this stream's representation.
    pub fn next_request(&self) -> (r: ReadRequest)
        ensures
            r.delay_ms == self.delay_ms,
            r.query == self.query.handle,
            r.counter == self.counter.handle,
            r.format == self.kind.spec_format_code(),
    {
        ReadRequest {
            delay_ms: self.delay_ms,
            query: self.query.handle,
            counter: self.counter.handle,
            format: self.kind.format_code(),
        }
    }

    /// Judges one pull's native reply: the reading on success, a one-tick
    /// error otherwise. An error never ends the stream: the stream is
    /// untouched either way and the next pull may succeed.
    pub fn next(&self, reply: CollectReply) -> (r: Result<FormattedValue, PdhError>)
        requires
            self.wf(),
        ensures
            reply.collect_status != ERROR_SUCCESS ==> r == Err::<FormattedValue, PdhError>(
                PdhError::Collect(reply.collect_status),
            ),
            reply.collect_status == ERROR_SUCCESS && reply.format_status != ERROR_SUCCESS ==> r
                == Err::<FormattedValue, PdhError>(PdhError::Collect(reply.format_status)),
            reply.collect_status == ERROR_SUCCESS && reply.format_status == ERROR_SUCCESS ==> r
                == Ok::<FormattedValue, PdhError>(reply.value),
    {
        self.query.finish_collect(&self.counter, reply)
    }
}

} // verus!
