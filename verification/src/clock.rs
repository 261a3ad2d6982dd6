//! Instants: the present one, and those that publish dates name.

use time::format_description::well_known::Rfc2822;
use time::OffsetDateTime;
use vstd::prelude::*;

verus! {

/// An instant and the offset from UTC under which it is shown: whole seconds
/// since the Unix epoch, and the offset in seconds east of UTC.
#[derive(Clone, Copy, Debug, PartialEq, Eq, Structural)]
pub struct Timestamp {
    pub unix_seconds: i64,
    pub offset_seconds: i32,
}

/// The first second of the year -9999, in seconds since the Unix epoch.
pub const EARLIEST_SECOND: i64 = -377705116800;

/// The last second of the year 9999, in seconds since the Unix epoch.
pub const LATEST_SECOND: i64 = 253402300799;

/// RFC 2822 without the optional weekday, and without seconds.
pub const RSS_TIME_FORMAT: &'static str =
    "[day] [month repr:short] [year] [hour repr:24]:[minute] [offset_hour sign:mandatory][offset_minute]";

impl Timestamp {
    /// Whether the instant lies in the years -9999 to 9999.
    pub open spec fn in_range(self) -> bool {
        EARLIEST_SECOND <= self.unix_seconds <= LATEST_SECOND
    }
}

/// The instant `seconds` after `now`, at offset zero, where it lies in the
/// years -9999 to 9999.
pub open spec fn instant_after(now: i64, seconds: i64) -> Option<Timestamp> {
    if EARLIEST_SECOND <= now + seconds <= LATEST_SECOND {
        Some(Timestamp { unix_seconds: (now + seconds) as i64, offset_seconds: 0 })
    } else {
        None
    }
}

/// What a text means under a format description of the `time` crate, if it
/// matches the description.
pub uninterp spec fn described_datetime(text: Seq<char>, description: Seq<char>) -> Option<
    Timestamp,
>;

/// What a text means as an RFC 2822 date and time, or why it is none.
pub uninterp spec fn rfc2822_datetime(text: Seq<char>) -> Result<Timestamp, Seq<char>>;

/// `time::OffsetDateTime::now_utc`, read in whole seconds: the clock's
/// reading is a date of the `time` crate, which, built without its
/// `large-dates` feature as it is here, lies in the years -9999 to 9999.
#[verifier::external_body]
fn utc_now_seconds() -> (r: i64)
    ensures
        EARLIEST_SECOND <= r <= LATEST_SECOND,
{
    OffsetDateTime::now_utc().unix_timestamp()
}

/// `time::OffsetDateTime::parse` with the items that
/// `time::format_description::parse_borrowed` makes of `description`: the
/// outcome depends on the two texts alone. A description that is none gives
/// `None`.
#[verifier::external_body]
fn parse_described(text: &str, description: &str) -> (r: Option<Timestamp>)
    ensures
        r == described_datetime(text@, description@),
{
    let items = time::format_description::parse_borrowed::<1>(description).ok()?;
    let at = OffsetDateTime::parse(text, &items).ok()?;
    Some(Timestamp { unix_seconds: at.unix_timestamp(), offset_seconds: at.offset().whole_seconds() })
}

/// `time::OffsetDateTime::parse` with `Rfc2822`: the outcome, the error's
/// text included, depends on the text alone.
#[verifier::external_body]
fn parse_rfc2822(text: &str) -> (r: Result<Timestamp, String>)
    ensures
        match r {
            Ok(at) => rfc2822_datetime(text@) == Ok::<Timestamp, Seq<char>>(at),
            Err(why) => rfc2822_datetime(text@) == Err::<Timestamp, Seq<char>>(why@),
        },
{
    match OffsetDateTime::parse(text, &Rfc2822) {
        Ok(at) => Ok(
            Timestamp { unix_seconds: at.unix_timestamp(), offset_seconds: at.offset().whole_seconds() },
        ),
        Err(why) => Err(why.to_string()),
    }
}

/// What a publish date means: read without a weekday first, then as RFC 2822.
pub open spec fn publish_time(text: Seq<char>) -> Result<Timestamp, Seq<char>> {
    match described_datetime(text, RSS_TIME_FORMAT@) {
        Some(at) => Ok(at),
        None => rfc2822_datetime(text),
    }
}

/// Reads a publish date: without a weekday first, then as RFC 2822. The
/// error is that of the second reading.
pub fn parse_pub_date(text: &str) -> (r: Result<Timestamp, String>)
    ensures
        match r {
            Ok(at) => publish_time(text@) == Ok::<Timestamp, Seq<char>>(at),
            Err(why) => publish_time(text@) == Err::<Timestamp, Seq<char>>(why@),
        },
{
    match parse_described(text, RSS_TIME_FORMAT) {
        Some(at) => Ok(at),
        None => parse_rfc2822(text),
    }
}

/// The instant `seconds` after `now`, at offset zero; `None` where that
/// leaves the years -9999 to 9999.
pub fn datetime_after(now: i64, seconds: i64) -> (r: Option<Timestamp>)
    ensures
        r == instant_after(now, seconds),
{
    match now.checked_add(seconds) {
        Some(at) => {
            if EARLIEST_SECOND <= at && at <= LATEST_SECOND {
                Some(Timestamp { unix_seconds: at, offset_seconds: 0 })
            } else {
                None
            }
        },
        None => None,
    }
}

/// The instant `seconds` from now, at offset zero; `None` where that leaves
/// the years -9999 to 9999. The present instant itself is always had.
pub fn get_future_datetime(seconds: i64) -> (r: Option<Timestamp>)
    ensures
        exists|now: i64|
            EARLIEST_SECOND <= now <= LATEST_SECOND && r == #[trigger] instant_after(now, seconds),
        seconds == 0 ==> r is Some,
        r matches Some(at) ==> at.in_range() && at.offset_seconds == 0,
{
    let now = utc_now_seconds();
    let r = datetime_after(now, seconds);
    assert(r == instant_after(now, seconds));
    r
}

/// The present instant, at offset zero.
pub fn now() -> (r: Timestamp)
    ensures
        r.in_range(),
        r.offset_seconds == 0,
{
    Timestamp { unix_seconds: utc_now_seconds(), offset_seconds: 0 }
}

} // verus!
