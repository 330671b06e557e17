//! Values that come from outside the program's own state: the current
//! time and fresh record identifiers.

use vstd::prelude::*;

verus! {

/// A point in time: seconds since the Unix epoch (UTC) and the
/// nanoseconds within that second.
#[derive(Clone, Copy, Debug, PartialEq, Eq, Structural)]
pub struct Timestamp {
    pub secs: i64,
    pub nanos: u32,
}

/// Calls `chrono::Utc::now`, and reads the result with
/// `DateTime::timestamp` and `DateTime::timestamp_subsec_nanos`.
/// Trusted, and nothing is claimed of the value: it is the clock's.
#[verifier::external_body]
pub(crate) fn utc_now() -> (now: Timestamp) {
    let t = chrono::Utc::now();
    Timestamp { secs: t.timestamp(), nanos: t.timestamp_subsec_nanos() }
}

/// Calls `idgenerator::IdInstance::next_id`.
/// Trusted, and nothing is claimed of the value: it depends on the clock
/// and on the identifiers handed out before.
#[verifier::external_body]
pub(crate) fn generate_id() -> (id: i64) {
    idgenerator::IdInstance::next_id()
}

} // verus!
