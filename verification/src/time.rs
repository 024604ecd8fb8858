//! Time stamps as text, and the clock.
use vstd::prelude::*;

verus! {

broadcast use vstd::string::group_string_axioms;

/// The pattern of the IRCv3 `time` tag.
pub const TIME_TAG: &'static str = "%Y-%m-%dT%H:%M:%S.000Z";

/// The pattern of the time at which the server came up.
pub const BOOT_TIME: &'static str = "%Y-%m-%d %H:%M:%S UTC";

/// The pattern of the reply to a TIME command.
pub const CLOCK: &'static str = "%a %b %d %Y %H:%M:%S UTC";

/// The UTC date and time of a Unix time in seconds, as text of the given pattern.
pub uninterp spec fn utc_text(ts: u64, pattern: Seq<char>) -> Seq<char>;

/// `chrono::DateTime::from_timestamp` and `format`: the UTC date and time of a Unix time in
/// seconds, as text; the epoch where the date is out of chrono's range. The patterns are those that
/// chrono knows how to write. A function of the two arguments alone.
#[verifier::external_body]
fn format_utc(ts: u64, pattern: &str) -> (r: String)
    requires
        pattern@ == TIME_TAG@ || pattern@ == BOOT_TIME@ || pattern@ == CLOCK@,
    ensures
        r@ == utc_text(ts, pattern@),
{
    chrono::DateTime::from_timestamp(ts as i64, 0).unwrap_or_default().format(pattern).to_string()
}

/// The text of the IRCv3 `time` tag for a Unix time.
pub open spec fn time_tag(ts: u64) -> Seq<char> {
    utc_text(ts, TIME_TAG@)
}

/// The text of the IRCv3 `time` tag for a Unix time.
pub fn format_time_tag(ts: u64) -> (r: String)
    ensures
        r@ == time_tag(ts),
{
    format_utc(ts, TIME_TAG)
}

/// The text of the time at which the server came up.
pub open spec fn boot_time_text(ts: u64) -> Seq<char> {
    utc_text(ts, BOOT_TIME@)
}

/// The text of the time at which the server came up.
pub fn format_boot_time(ts: u64) -> (r: String)
    ensures
        r@ == boot_time_text(ts),
{
    format_utc(ts, BOOT_TIME)
}

/// The text of the time in the reply to a TIME command.
pub open spec fn clock_text(ts: u64) -> Seq<char> {
    utc_text(ts, CLOCK@)
}

/// The text of the time in the reply to a TIME command.
pub fn format_clock(ts: u64) -> (r: String)
    ensures
        r@ == clock_text(ts),
{
    format_utc(ts, CLOCK)
}

/// The Unix time of an RFC 3339 date and time, if the text is one.
pub uninterp spec fn rfc3339_seconds(s: Seq<char>) -> Option<i64>;

/// `chrono::DateTime::parse_from_rfc3339` and `timestamp`: the Unix time in seconds, or nothing
/// where the text is no RFC 3339 date and time. A function of the text alone.
#[verifier::external_body]
pub(crate) fn parse_rfc3339(s: &str) -> (r: Option<i64>)
    ensures
        r == rfc3339_seconds(s@),
{
    match chrono::DateTime::parse_from_rfc3339(s) {
        Ok(dt) => Some(dt.timestamp()),
        Err(_) => None,
    }
}

/// `chrono::Utc::now` and `timestamp`: the time of the clock, which nothing else determines.
#[verifier::external_body]
pub(crate) fn unix_now() -> (t: i64) {
    chrono::Utc::now().timestamp()
}

} // verus!
