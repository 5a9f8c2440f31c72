use vstd::prelude::*;
use crate::text::opt_text;

verus! {

/// What the library reads of an RFC 3339 timestamp: the instant in
/// milliseconds since the Unix epoch, and the hour of day and the calendar day
/// (`YYYY-MM-DD`) at the offset that the timestamp itself gives.
pub struct Stamp {
    pub millis: i64,
    pub hour: u32,
    pub day: String,
}

/// What `chrono::DateTime::parse_from_rfc3339` makes of `text`, read as a `Stamp`;
/// `None` where `text` is not an RFC 3339 timestamp.
pub uninterp spec fn rfc3339_stamp(text: Seq<char>) -> Option<Stamp>;

/// Parses `text` with `chrono::DateTime::parse_from_rfc3339` and reads
/// `timestamp_millis`, the hour of `naive_local` (0 to 23, as chrono documents
/// `Timelike::hour`) and `format("%Y-%m-%d")`. The result is named, not
/// stated: it depends on the text alone.
#[verifier::external_body]
pub(crate) fn parse_rfc3339(text: &str) -> (r: Option<Stamp>)
    ensures
        r == rfc3339_stamp(text@),
        r matches Some(t) ==> t.hour < 24,
{
    chrono::DateTime::parse_from_rfc3339(text).ok().map(
        |dt| Stamp {
            millis: dt.timestamp_millis(),
            hour: chrono::Timelike::hour(&dt.naive_local().time()),
            day: dt.format("%Y-%m-%d").to_string(),
        },
    )
}

/// The RFC 3339 text of the UTC instant `secs` seconds after the Unix epoch,
/// as chrono writes it; `None` where chrono cannot represent that instant.
pub uninterp spec fn utc_rfc3339(secs: i64) -> Option<Seq<char>>;

/// `chrono::DateTime::from_timestamp(secs, 0)` written with `to_rfc3339`.
/// The result is named, not stated: it depends on `secs` alone.
#[verifier::external_body]
pub(crate) fn rfc3339_of_unix_seconds(secs: i64) -> (r: Option<String>)
    ensures
        opt_text(r) == utc_rfc3339(secs),
{
    chrono::DateTime::from_timestamp(secs, 0).map(
        |dt: chrono::DateTime<chrono::Utc>| dt.to_rfc3339(),
    )
}

#[verifier::external_type_specification]
#[verifier::external_body]
pub struct ExSystemTime(std::time::SystemTime);

/// The system clock's present time (`SystemTime::now`). Nothing is stated of
/// it: it is the time.
#[verifier::external_body]
fn system_now() -> std::time::SystemTime {
    std::time::SystemTime::now()
}

/// How long after the Unix epoch `t` lies (`SystemTime::duration_since`), as
/// whole seconds and the nanoseconds beyond them, which `Duration` keeps below
/// one second; `None` for a time before the epoch. Nothing else is stated: the
/// value of a `SystemTime` is opaque here.
#[verifier::external_body]
fn elapsed_since_epoch(t: &std::time::SystemTime) -> (r: Option<(u64, u32)>)
    ensures
        r matches Some(e) ==> e.1 < 1_000_000_000,
{
    t.duration_since(std::time::UNIX_EPOCH).ok().map(|d| (d.as_secs(), d.subsec_nanos()))
}

/// Whole milliseconds in `secs` seconds and `nanos` nanoseconds, truncated to 64 bits.
pub open spec fn millis_of(secs: u64, nanos: u32) -> u64 {
    ((secs as int * 1000 + nanos as int / 1_000_000) % 0x1_0000_0000_0000_0000int) as u64
}

/// The milliseconds since the Unix epoch of a time that lies `elapsed` after
/// it (whole milliseconds, truncated to 64 bits), or 0 for a time before it.
pub open spec fn epoch_millis(elapsed: Option<(u64, u32)>) -> u64 {
    match elapsed {
        Some((s, n)) => millis_of(s, n),
        None => 0u64,
    }
}

/// The milliseconds since the Unix epoch of a time that lies `elapsed` after
/// it (whole milliseconds, truncated to 64 bits), or 0 for a time before it.
pub fn millis_from_elapsed(elapsed: Option<(u64, u32)>) -> (r: u64)
    ensures
        r == epoch_millis(elapsed),
{
    match elapsed {
        Some((s, n)) => {
            let total: u128 = (s as u128) * 1000 + ((n / 1_000_000) as u128);
            (total % 0x1_0000_0000_0000_0000u128) as u64
        },
        None => 0,
    }
}

/// The present time in whole milliseconds since the Unix epoch, truncated to
/// 64 bits, 0 while the clock stands before the epoch; returned with the clock
/// reading it was computed from: how long after the epoch the clock stands
/// (seconds and nanoseconds), or `None` before it. The reading itself is the
/// time, and nothing is stated of it beyond what `Duration` keeps.
pub fn now_unix_ms() -> (r: (u64, Option<(u64, u32)>))
    ensures
        r.0 == epoch_millis(r.1),
        r.1 matches Some(e) ==> e.1 < 1_000_000_000,
{
    let t = system_now();
    let e = elapsed_since_epoch(&t);
    (millis_from_elapsed(e), e)
}

} // verus!
