//! Wall-clock time, in UTC.
use vstd::prelude::*;

verus! {

/// Canonical UTC timestamp: whole seconds since the epoch, and the nanoseconds
/// since the last of them.
#[derive(Clone, Copy, Debug, PartialEq, Eq, PartialOrd, Ord, Hash)]
pub struct Timestamp {
    pub seconds: i64,
    pub nanos: u32,
}

/// The text of a moment in the format of RFC 3339, as `chrono` writes it; `None`
/// for a moment that `chrono` cannot represent.
pub uninterp spec fn rfc3339(seconds: i64, nanos: u32) -> Option<Seq<char>>;

/// `DateTime::from_timestamp` of the crate `chrono`, then `to_rfc3339`: a function
/// of the two numbers alone.
#[verifier::external_body]
fn write_rfc3339(seconds: i64, nanos: u32) -> (r: Option<String>)
    ensures
        match r {
            Some(text) => rfc3339(seconds, nanos) == Some(text@),
            None => rfc3339(seconds, nanos) is None,
        },
{
    chrono::DateTime::from_timestamp(seconds, nanos).map(|t| t.to_rfc3339())
}

/// `Utc::now` of the crate `chrono`: the current UTC wall-clock time. Which moment
/// it is is left open; it is one that `chrono` can represent. The clock must not be
/// set before the Unix epoch.
#[verifier::external_body]
pub fn now() -> (r: Timestamp)
    ensures
        r.nanos < 1_000_000_000,
        rfc3339(r.seconds, r.nanos) is Some,
{
    let t = chrono::Utc::now();
    Timestamp { seconds: t.timestamp(), nanos: t.timestamp_subsec_nanos() }
}

impl Timestamp {
    /// The moment in the format of RFC 3339.
    pub fn to_rfc3339(&self) -> (r: Option<String>)
        ensures
            match r {
                Some(text) => rfc3339(self.seconds, self.nanos) == Some(text@),
                None => rfc3339(self.seconds, self.nanos) is None,
            },
    {
        write_rfc3339(self.seconds, self.nanos)
    }
}

/// The current moment in the format of RFC 3339.
pub fn now_rfc3339() -> (r: String)
    ensures
        exists|seconds: i64, nanos: u32|
            nanos < 1_000_000_000 && #[trigger] rfc3339(seconds, nanos) == Some(r@),
{
    let t: Timestamp = now();
    t.to_rfc3339().unwrap()
}

} // verus!
