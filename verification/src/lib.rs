//! Verified core of a performance-counter exporter.
//!
//! The library models the counter subsystem's wire formats and protocols on
//! plain values: the null-separated multi-string encoding, counter path
//! construction and parsing, the two-phase size-probing enumeration protocol,
//! the query/counter lifecycle, typed value streams, and the collector and
//! responder loops that publish readings into a metric registry under a
//! cooperative stop flag. The native subsystem calls themselves, and all I/O,
//! live outside the library and hand it plain values.

pub mod catalog;
pub mod codec;
pub mod collector;
pub mod constants;
pub mod error;
pub mod path;
pub mod query;
pub mod stream;

pub use constants::PDHStatus;
