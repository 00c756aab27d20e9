//! A filesystem timestamp as plain values: whole seconds relative to the
//! Unix epoch and a sub-second nanosecond part.

use vstd::prelude::*;

verus! {

/// An instant taken from one filesystem metadata snapshot.
///
/// `secs` counts whole seconds from the Unix epoch (negative for instants
/// before it); `nanos` is the sub-second part. Ordering is lexicographic on
/// `(secs, nanos)`, which matches the order of the instants themselves
/// whenever `nanos` is a normalized sub-second count.
#[derive(Clone, Copy, Debug, PartialEq, Eq, Structural)]
pub struct Timestamp {
    pub secs: i64,
    pub nanos: u32,
}

/// `a` is strictly earlier than `b`.
pub open spec fn ts_lt(a: Timestamp, b: Timestamp) -> bool {
    a.secs < b.secs || (a.secs == b.secs && a.nanos < b.nanos)
}

impl Timestamp {
    /// Compares two instants.
    pub fn is_before(&self, other: &Timestamp) -> (r: bool)
        ensures
            r == ts_lt(*self, *other),
    {
        self.secs < other.secs || (self.secs == other.secs && self.nanos < other.nanos)
    }
}

/// Relies on chrono: `DateTime::<Utc>::from_timestamp` returns `Some` for
/// every instant in this range, and rendering it through `Local` formats it
/// in the process's local time zone — the text depends on that environment.
#[verifier::external_body]
fn format_local(secs: i64, nanos: u32) -> (r: String)
    requires
        -8_000_000_000_000 <= secs <= 8_000_000_000_000,
        nanos < 1_000_000_000,
{
    let utc = chrono::DateTime::<chrono::Utc>::from_timestamp(secs, nanos).unwrap();
    utc.with_timezone(&chrono::Local).format("%A, %B %d, %Y at %I:%M %p").to_string()
}

/// An instant together with its display text.
#[derive(Debug)]
pub struct Stamped {
    pub at: Timestamp,
    pub shown: String,
}

/// Renders an instant for display in the local time zone. An instant outside
/// the range chrono can place on the calendar is shown as empty text.
pub fn stamp_local(t: Timestamp) -> (r: Stamped)
    ensures
        r.at == t,
{
    let shown = if -8_000_000_000_000 <= t.secs && t.secs <= 8_000_000_000_000 && t.nanos
        < 1_000_000_000 {
        format_local(t.secs, t.nanos)
    } else {
        String::new()
    };
    Stamped { at: t, shown }
}

} // verus!
