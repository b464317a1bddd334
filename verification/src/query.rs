//! Query sessions, attached counters, and typed value retrieval.
//!
//! A query session owns one native query handle; counters attach to exactly
//! one session and must not outlive it. The native calls happen outside the
//! library; their statuses and raw handles come back in as plain values,
//! and every decision about them is made here. Handles appear as opaque
//! numeric tokens.

use vstd::prelude::*;

use crate::constants::ERROR_SUCCESS;
use crate::constants::PDH_FMT_DOUBLE;
use crate::constants::PDH_FMT_LARGE;
use crate::constants::PDH_FMT_LONG;
use crate::constants::PDHStatus;
use crate::error::PdhError;
use crate::path::spec_parse_counter_path;
use crate::path::validate_counter_path;

verus! {

/// Which numeric representation to request at read time. The subsystem
/// fills whichever representation is asked for, whatever the counter's
/// natural type.
#[derive(Clone, Copy, Debug, PartialEq, Eq, Structural)]
pub enum ValueKind {
    /// A 32-bit integer reading.
    Long,
    /// A 64-bit integer reading.
    Large,
    /// A 64-bit float reading, carried as its raw bit pattern.
    Double,
}

impl ValueKind {
    /// The subsystem's format code for this representation.
    pub open spec fn spec_format_code(&self) -> u32 {
        match self {
            ValueKind::Long => PDH_FMT_LONG,
            ValueKind::Large => PDH_FMT_LARGE,
            ValueKind::Double => PDH_FMT_DOUBLE,
        }
    }

    /// Selects the subsystem's format code for this representation.
    pub fn format_code(&self) -> (r: u32)
        ensures
            r == self.spec_format_code(),
    {
        match self {
            ValueKind::Long => PDH_FMT_LONG,
            ValueKind::Large => PDH_FMT_LARGE,
            ValueKind::Double => PDH_FMT_DOUBLE,
        }
    }
}

/// One counter reading, in the representation that was requested. A double
/// is carried as its raw bit pattern: the library stores and moves
/// readings, it never does arithmetic on them.
#[derive(Clone, Copy, Debug, PartialEq, Eq, Structural)]
pub enum FormattedValue {
    /// A 32-bit integer reading.
    Long(i32),
    /// A 64-bit integer reading.
    Large(i64),
    /// The bit pattern of a 64-bit float reading.
    Double(u64),
}

impl FormattedValue {
    /// Whether this reading is in the given representation.
    pub open spec fn is_kind(&self, kind: ValueKind) -> bool {
        match self {
            FormattedValue::Long(_) => kind == ValueKind::Long,
            FormattedValue::Large(_) => kind == ValueKind::Large,
            FormattedValue::Double(_) => kind == ValueKind::Double,
        }
    }
}

/// One open query session. The token stands for the native query handle,
/// which lives outside the library. A session is the sole owner of its
/// handle: the type is neither copied nor cloned, and the handle is
/// released exactly once, by whoever made it, when the session is dropped.
pub struct PdhQuery {
    /// The opaque token of the native query handle.
    pub handle: u64,
}

/// One attached counter. The token stands for the native counter handle; a
/// counter is bound at creation to exactly one query session and must not
/// be used after that session is gone.
pub struct PdhCounter {
    /// The opaque token of the native counter handle.
    pub handle: u64,
    /// The token of the query session this counter is bound to.
    pub query: u64,
}

/// What the two native calls of one collect round-trip reported: the
/// snapshot refresh, the format call, and the reading the format call wrote.
pub struct CollectReply {
    /// The status of the snapshot-refreshing collect call.
    pub collect_status: PDHStatus,
    /// The status of the formatted-value call.
    pub format_status: PDHStatus,
    /// The reading the formatted-value call wrote; meaningful only when
    /// both statuses are successes.
    pub value: FormattedValue,
}

impl PdhQuery {
    /// Completes opening a session from the native call's reply: a session
    /// exists only for a successful status; any other status is an open
    /// failure carrying that status.
    pub fn open_query(status: PDHStatus, handle: u64) -> (r: Result<PdhQuery, PdhError>)
        ensures
            status == ERROR_SUCCESS ==> r is Ok && r->Ok_0.handle == handle,
            status != ERROR_SUCCESS ==> r == Err::<PdhQuery, PdhError>(PdhError::Open(status)),
    {
        if status == ERROR_SUCCESS {
            Ok(PdhQuery { handle })
        } else {
            Err(PdhError::Open(status))
        }
    }

    /// Validates a path's syntax before any attach is tried, so a malformed
    /// path is diagnosed precisely: the attach may only be attempted on a
    /// path that parses.
    pub fn check_counter_path(&self, path: &str) -> (r: Result<(), PdhError>)
        ensures
            spec_parse_counter_path(path@) is Some ==> r == Ok::<(), PdhError>(()),
            spec_parse_counter_path(path@) is None ==> r == Err::<(), PdhError>(
                PdhError::InvalidPath,
            ),
    {
        if validate_counter_path(path) {
            Ok(())
        } else {
            Err(PdhError::InvalidPath)
        }
    }

    /// Completes an attach from the native call's reply: a counter bound to
    /// this session exists only for a successful status; any other status
    /// means the path, though syntactically valid, named no live counter.
    pub fn finish_add_counter(&self, status: PDHStatus, handle: u64) -> (r: Result<
        PdhCounter,
        PdhError,
    >)
        ensures
            status == ERROR_SUCCESS ==> r is Ok && r->Ok_0.handle == handle && r->Ok_0.query
                == self.handle,
            status != ERROR_SUCCESS ==> r == Err::<PdhCounter, PdhError>(
                PdhError::Attach(status),
            ),
    {
        if status == ERROR_SUCCESS {
            Ok(PdhCounter { handle, query: self.handle })
        } else {
            Err(PdhError::Attach(status))
        }
    }

    /// Completes one collect round-trip on a counter of this session: the
    /// snapshot refresh and the format call must both succeed, and either
    /// failure is a one-tick collect error carrying its status — never
    /// fatal, since the next tick may succeed.
    pub fn finish_collect(&self, counter: &PdhCounter, reply: CollectReply) -> (r: Result<
        FormattedValue,
        PdhError,
    >)
        requires
            counter.query == self.handle,
        ensures
            reply.collect_status != ERROR_SUCCESS ==> r == Err::<FormattedValue, PdhError>(
                PdhError::Collect(reply.collect_status),
            ),
            reply.collect_status == ERROR_SUCCESS && reply.format_status != ERROR_SUCCESS ==> r
                == Err::<FormattedValue, PdhError>(PdhError::Collect(reply.format_status)),
            reply.collect_status == ERROR_SUCCESS && reply.format_status == ERROR_SUCCESS ==> r
                == Ok::<FormattedValue, PdhError>(reply.value),
    {
        if reply.collect_status != ERROR_SUCCESS {
            Err(PdhError::Collect(reply.collect_status))
        } else if reply.format_status != ERROR_SUCCESS {
            Err(PdhError::Collect(reply.format_status))
        } else {
            Ok(reply.value)
        }
    }
}

} // verus!
