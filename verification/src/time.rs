//! Instants on the UTC time line, held as plain integers.
//!
//! A record's timestamps are ordered, compared and carried between replicas,
//! so they are kept as the pair that the engine reads: whole seconds since
//! 1970-01-01T00:00:00Z and the nanoseconds past that second. The calendar
//! work (reading the clock, RFC 3339 text) is chrono's.

use crate::error::NotaroError;
use vstd::prelude::*;

verus! {

/// `chrono::ParseError`, carried as a cause and never looked into.
#[verifier::external_type_specification]
#[verifier::external_body]
pub struct ExParseError(chrono::ParseError);

/// Whether chrono has a `DateTime<Utc>` for `secs` whole seconds since the
/// epoch plus `nanos` nanoseconds, that is whether
/// `DateTime::from_timestamp(secs, nanos)` is `Some`.
pub uninterp spec fn representable(secs: int, nanos: int) -> bool;

/// The text that `DateTime::<Utc>::to_rfc3339` writes for the instant
/// `DateTime::from_timestamp(secs, nanos)`.
pub uninterp spec fn rfc3339_text(secs: int, nanos: int) -> Seq<char>;

/// The instant that `DateTime::parse_from_rfc3339` reads out of `text`, as
/// seconds since the epoch and nanoseconds; `None` where it rejects the text.
pub uninterp spec fn rfc3339_instant(text: Seq<char>) -> Option<(int, int)>;

/// An instant on the UTC time line.
///
/// Every value is one that chrono can represent, so it always has an
/// RFC 3339 text.
#[derive(Clone, Copy, Debug, PartialEq, Eq, Structural)]
pub struct Timestamp {
    secs: i64,
    nanos: u32,
}

/// Calls `chrono::Utc::now` and takes the instant apart with
/// `DateTime::timestamp` and `DateTime::timestamp_subsec_nanos`. Which
/// instant comes back is the clock's business. What holds of every reading:
/// chrono can build it back from the two numbers, as it can every
/// `DateTime<Utc>`, and it is no leap second, because chrono makes the
/// reading from whole seconds and a fraction below one second. (chrono gives
/// up on a system clock set before 1970.)
#[verifier::external_body]
fn clock_now() -> (parts: (i64, u32))
    ensures
        representable(parts.0 as int, parts.1 as int),
        parts.1 < 1_000_000_000,
{
    let now = chrono::Utc::now();
    (now.timestamp(), now.timestamp_subsec_nanos())
}

/// Calls `chrono::DateTime::from_timestamp` and reports whether it gave a
/// value.
#[verifier::external_body]
fn instant_exists(secs: i64, nanos: u32) -> (yes: bool)
    ensures
        yes == representable(secs as int, nanos as int),
{
    chrono::DateTime::from_timestamp(secs, nanos).is_some()
}

/// Calls `chrono::DateTime::from_timestamp` and then
/// `DateTime::<Utc>::to_rfc3339` on the value. The text is a function of the
/// two numbers alone; it is `Some` exactly where chrono has the instant.
#[verifier::external_body]
fn instant_to_rfc3339(secs: i64, nanos: u32) -> (text: Option<String>)
    ensures
        text is Some <==> representable(secs as int, nanos as int),
        text matches Some(t) ==> t@ == rfc3339_text(secs as int, nanos as int),
{
    match chrono::DateTime::from_timestamp(secs, nanos) {
        Some(instant) => Some(instant.to_rfc3339()),
        None => None,
    }
}

/// Calls `chrono::DateTime::parse_from_rfc3339` and takes the instant apart
/// with `DateTime::timestamp` and `DateTime::timestamp_subsec_nanos`. The
/// outcome is a function of the text alone, and an accepted instant is one
/// chrono can build back from the two numbers.
#[verifier::external_body]
fn instant_from_rfc3339(text: &str) -> (parsed: Result<(i64, u32), chrono::ParseError>)
    ensures
        parsed is Ok <==> rfc3339_instant(text@) is Some,
        parsed matches Ok(parts) ==> rfc3339_instant(text@) == Some(
            (parts.0 as int, parts.1 as int),
        ) && representable(parts.0 as int, parts.1 as int),
{
    match chrono::DateTime::parse_from_rfc3339(text) {
        Ok(instant) => Ok((instant.timestamp(), instant.timestamp_subsec_nanos())),
        Err(e) => Err(e),
    }
}

impl Timestamp {
    #[verifier::type_invariant]
    spec fn valid(self) -> bool {
        representable(self.secs as int, self.nanos as int)
    }

    /// Whole seconds since 1970-01-01T00:00:00Z, negative before it.
    pub closed spec fn spec_secs(self) -> i64 {
        self.secs
    }

    /// Nanoseconds past the whole second.
    pub closed spec fn spec_nanos(self) -> u32 {
        self.nanos
    }

    /// `self` is at or after `other` on the time line.
    pub open spec fn at_or_after(self, other: Timestamp) -> bool {
        self.spec_secs() > other.spec_secs() || (self.spec_secs() == other.spec_secs()
            && self.spec_nanos() >= other.spec_nanos())
    }

    /// The RFC 3339 text of this instant, as chrono writes it.
    pub open spec fn spec_rfc3339(self) -> Seq<char> {
        rfc3339_text(self.spec_secs() as int, self.spec_nanos() as int)
    }

    /// Whether `text` is RFC 3339 text that chrono reads as this instant.
    pub open spec fn is_read_from(self, text: Seq<char>) -> bool {
        rfc3339_instant(text) == Some((self.spec_secs() as int, self.spec_nanos() as int))
    }

    /// Reads the system clock. The reading is an instant that chrono can
    /// represent, and never a leap second: its nanoseconds stay below one
    /// second.
    pub fn now() -> (now: Timestamp)
        ensures
            representable(now.spec_secs() as int, now.spec_nanos() as int),
            now.spec_nanos() < 1_000_000_000,
    {
        let parts = clock_now();
        Timestamp { secs: parts.0, nanos: parts.1 }
    }

    /// The instant `secs` seconds and `nanos` nanoseconds after the epoch,
    /// where chrono has one.
    pub fn from_parts(secs: i64, nanos: u32) -> (made: Option<Timestamp>)
        ensures
            made is Some <==> representable(secs as int, nanos as int),
            made matches Some(t) ==> t.spec_secs() == secs && t.spec_nanos() == nanos,
    {
        if instant_exists(secs, nanos) {
            Some(Timestamp { secs, nanos })
        } else {
            None
        }
    }

    /// Whole seconds since 1970-01-01T00:00:00Z, negative before it.
    #[verifier::when_used_as_spec(spec_secs)]
    pub fn secs(self) -> (secs: i64)
        ensures
            secs == self.spec_secs(),
    {
        self.secs
    }

    /// Nanoseconds past the whole second.
    #[verifier::when_used_as_spec(spec_nanos)]
    pub fn nanos(self) -> (nanos: u32)
        ensures
            nanos == self.spec_nanos(),
    {
        self.nanos
    }

    /// Whether `self` is at or after `other` on the time line.
    pub fn is_at_or_after(&self, other: &Timestamp) -> (yes: bool)
        ensures
            yes == self.at_or_after(*other),
    {
        self.secs > other.secs || (self.secs == other.secs && self.nanos >= other.nanos)
    }

    /// Writes the instant as RFC 3339 text.
    pub fn to_rfc3339(&self) -> (text: String)
        ensures
            text@ == self.spec_rfc3339(),
    {
        proof {
            use_type_invariant(self);
        }
        match instant_to_rfc3339(self.secs, self.nanos) {
            Some(text) => text,
            None => unreached(),
        }
    }

    /// Reads an instant from RFC 3339 text. Text that chrono rejects is a
    /// serialization fault.
    pub fn parse_rfc3339(text: &str) -> (parsed: Result<Timestamp, NotaroError>)
        ensures
            parsed is Ok <==> rfc3339_instant(text@) is Some,
            parsed matches Ok(t) ==> t.is_read_from(text@),
            parsed matches Err(e) ==> e is Timestamp,
    {
        match instant_from_rfc3339(text) {
            Ok(parts) => Ok(Timestamp { secs: parts.0, nanos: parts.1 }),
            Err(cause) => Err(NotaroError::Timestamp(cause)),
        }
    }
}

} // verus!
