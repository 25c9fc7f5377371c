//! Points in time.
use vstd::prelude::*;

verus! {

/// A point in time: seconds since the start of 1970 in UTC, and nanoseconds past
/// them. In a leap second the nanoseconds go on past a thousand million.
#[derive(Debug, Clone, Copy, PartialEq, Eq, Structural)]
pub struct Timestamp {
    pub secs: i64,
    pub nanos: u32,
}

impl Timestamp {
    /// Whether this is `other` or earlier.
    pub open spec fn not_after(self, other: Timestamp) -> bool {
        self.secs < other.secs || (self.secs == other.secs && self.nanos <= other.nanos)
    }

    /// Whether this is `other` or earlier.
    pub fn is_not_after(self, other: Timestamp) -> (r: bool)
        ensures
            r == self.not_after(other),
    {
        self.secs < other.secs || (self.secs == other.secs && self.nanos <= other.nanos)
    }

    /// Whether this is in the years -262143 to 262142, and past its second only at the end
    /// of a minute.
    pub open spec fn is_time(self) -> bool {
        &&& -8_334_601_228_800 <= self.secs <= 8_210_266_876_799
        &&& self.nanos < 1_000_000_000 || self.nanos < 2_000_000_000 && self.secs % 60 == 59
    }

    /// Whether this is in the years 0 to 9999, and not in a leap second.
    pub open spec fn is_plain(self) -> bool {
        -62_167_219_200 <= self.secs <= 253_402_300_799 && self.nanos < 1_000_000_000
    }
}

/// Of any two points in time one is not after the other, and both only if they are
/// the same.
pub proof fn time_is_ordered(a: Timestamp, b: Timestamp)
    ensures
        a.not_after(b) || b.not_after(a),
        a.not_after(b) && b.not_after(a) ==> a == b,
{
}

/// What `str::parse` to a `chrono::DateTime<Utc>` makes of a text: the point in time,
/// or the text of the error.
pub uninterp spec fn utc_instant(text: Seq<char>) -> Result<Timestamp, Seq<char>>;

/// Whether a text reads as that point in time.
pub open spec fn reads_as(text: Seq<char>, time: Timestamp) -> bool {
    utc_instant(text) == Ok::<Timestamp, Seq<char>>(time)
}

/// Reads a date and time with `str::parse::<chrono::DateTime<Utc>>`, which accepts a
/// relaxed form of RFC 3339. What a text means is left to [`utc_instant`].
#[verifier::external_body]
pub(crate) fn parse_utc(text: &str) -> (r: Result<Timestamp, String>)
    ensures
        crate::text::fallible(r) == utc_instant(text@),
{
    match text.parse::<chrono::DateTime<chrono::Utc>>() {
        Ok(t) => Ok(Timestamp { secs: t.timestamp(), nanos: t.timestamp_subsec_nanos() }),
        Err(e) => Err(e.to_string()),
    }
}

/// The RFC 3339 text of a point in time.
pub uninterp spec fn rfc3339_text(time: Timestamp) -> Seq<char>;

/// Writes a point in time with `chrono::DateTime::to_rfc3339`, which leaves out no
/// digit of the nanoseconds: from the years 0 to 9999 the text reads back as the same
/// time. `chrono::DateTime::from_timestamp` makes the time, unless it is no time at all.
#[verifier::external_body]
pub(crate) fn to_rfc3339(time: Timestamp) -> (r: String)
    requires
        time.is_time(),
    ensures
        r@ == rfc3339_text(time),
        time.is_plain() ==> reads_as(r@, time),
{
    chrono::DateTime::from_timestamp(time.secs, time.nanos).unwrap().to_rfc3339()
}

/// Which of two times comes first is told by the nanoseconds since the start of 1970, where
/// neither is in a leap second; in any case the seconds come first.
pub proof fn time_goes_by_nanoseconds(a: Timestamp, b: Timestamp)
    ensures
        a.secs < b.secs ==> a.not_after(b) && !b.not_after(a),
        a.secs == b.secs && a.nanos < b.nanos ==> a.not_after(b) && !b.not_after(a),
        a.not_after(a),
        a.nanos < 1_000_000_000 && b.nanos < 1_000_000_000 ==> (a.not_after(b) <==> a.secs
            * 1_000_000_000 + a.nanos <= b.secs * 1_000_000_000 + b.nanos),
{
}

} // verus!
