use vstd::prelude::*;

verus! {

/// A point in time in UTC: whole seconds since 1970-01-01T00:00:00Z and the
/// nanoseconds past that second.
#[derive(Clone, Copy, Debug, PartialEq, Eq)]
pub struct Timestamp {
    pub seconds: i64,
    pub nanoseconds: u32,
}

/// Reads the system clock (`std::time::SystemTime::now`) and turns the reading
/// into chrono's `DateTime<Utc>` by its `From<SystemTime>` conversion, which
/// takes times before 1970 too; then takes it apart into its seconds since the
/// epoch (`DateTime::timestamp`) and their sub-second nanoseconds
/// (`DateTime::timestamp_subsec_nanos`). Nothing is promised of the value, which
/// is the clock's. chrono's conversion unwraps the result of
/// `Utc.timestamp_opt`, so it panics only where the clock reads a time outside
/// the range of `DateTime` (some 262,000 years around year 0).
#[verifier::external_body]
pub(crate) fn now_utc() -> (t: Timestamp) {
    let now = chrono::DateTime::<chrono::Utc>::from(std::time::SystemTime::now());
    Timestamp { seconds: now.timestamp(), nanoseconds: now.timestamp_subsec_nanos() }
}

} // verus!
