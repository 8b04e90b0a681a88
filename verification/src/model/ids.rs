//! Fresh identifiers and the current time.
use vstd::prelude::*;

verus! {

/// A point in time as seconds since the Unix epoch and nanoseconds past
/// that second (more than 999,999,999 only during a leap second).
#[derive(Clone, Copy, Debug, PartialEq, Eq, Structural)]
pub struct Timestamp {
    pub secs: i64,
    pub subsec_nanos: u32,
}

impl Timestamp {
    /// `chrono::Utc::now()`: the current time of the system clock. Nothing is
    /// stated of the value, which depends on the clock.
    #[verifier::external_body]
    pub fn now() -> (t: Timestamp) {
        let now = chrono::Utc::now();
        Timestamp { secs: now.timestamp(), subsec_nanos: now.timestamp_subsec_nanos() }
    }
}

/// `uuid::Uuid::new_v4().to_string()`: a random version-4 UUID in its
/// hyphenated form, which is 36 characters long. Which UUID comes back is
/// left open: it is random.
#[verifier::external_body]
pub fn new_id() -> (id: String)
    ensures
        id@.len() == 36,
{
    uuid::Uuid::new_v4().to_string()
}

} // verus!
