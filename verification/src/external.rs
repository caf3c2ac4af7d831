//! Calls into outside crates and into parts of std that vstd does not
//! specify. Each item states what the library assumes of the call.
use vstd::prelude::*;

verus! {

/// ASCII letters and digits.
pub open spec fn is_alphanumeric(c: char) -> bool {
    ('a' <= c && c <= 'z') || ('A' <= c && c <= 'Z') || ('0' <= c && c <= '9')
}

/// Calls `rand::distributions::DistString::sample_string` with the
/// `Alphanumeric` distribution and the thread-local generator. The rand
/// source pushes `len` bytes drawn from `A..Z`, `a..z`, `0..9`; the contract
/// states the length and that every character is an ASCII letter or digit.
/// Which characters come out is left open: it rests on chance.
#[verifier::external_body]
pub(crate) fn random_alphanumeric(len: usize) -> (r: String)
    ensures
        r@.len() == len,
        forall|i: int| 0 <= i < r@.len() ==> is_alphanumeric(#[trigger] r@[i]),
{
    rand::distributions::DistString::sample_string(
        &rand::distributions::Alphanumeric,
        &mut rand::thread_rng(),
        len,
    )
}

/// Calls `rand::RngCore::fill_bytes` of the thread-local generator on a
/// buffer of `len` zero bytes. The contract states the length only: the
/// bytes rest on chance.
#[verifier::external_body]
pub(crate) fn random_bytes(len: usize) -> (r: Vec<u8>)
    ensures
        r@.len() == len,
{
    let mut buf = vec![0u8; len];
    rand::RngCore::fill_bytes(&mut rand::thread_rng(), &mut buf);
    buf
}

/// Calls `chrono::Utc::now` and takes `DateTime::timestamp`: the seconds since
/// the Unix epoch. chrono's source reads the system clock through
/// `duration_since(UNIX_EPOCH).expect(..)`, so a returned value is not
/// negative, and builds the result with `DateTime::from_timestamp(..).unwrap()`,
/// so it is at most the timestamp of `DateTime::<Utc>::MAX_UTC`
/// (8210266876799). Which value comes back rests on the clock.
#[verifier::external_body]
pub(crate) fn now_timestamp() -> (r: i64)
    ensures
        0 <= r <= 8210266876799,
{
    chrono::Utc::now().timestamp()
}

/// What `str::to_lowercase` makes of `s`.
pub uninterp spec fn lowercased(s: Seq<char>) -> Seq<char>;

/// Calls `str::to_lowercase`. Its mapping of characters (Unicode case
/// tables, where one character may become several) is left to the name
/// `lowercased`.
#[verifier::external_body]
pub(crate) fn to_lowercase_text(s: &str) -> (r: String)
    ensures
        r@ == lowercased(s@),
{
    s.to_lowercase()
}

/// Calls chrono: `NaiveDate::from_ymd_opt(1900, 1, 1)`, then
/// `checked_add_days(Days::new(days))`, and takes the UTC timestamp of the
/// midnight that starts the day reached. 1900-01-01 is 25567 days before the
/// Unix epoch, and the last day chrono can reach from it (`NaiveDate::MAX`,
/// 262142-12-31) is 95051803 days after it; the contract states the seconds
/// for the days up to that one and `None` beyond it.
#[verifier::external_body]
pub(crate) fn excel_day_seconds(days: u64) -> (r: Option<i64>)
    ensures
        days <= 95051803 ==> r == Some((((days as int) - 25567) * 86400) as i64),
        days > 95051803 ==> r is None,
{
    let start = chrono::NaiveDate::from_ymd_opt(1900, 1, 1)?;
    let day = start.checked_add_days(chrono::Days::new(days))?;
    Some(day.and_time(chrono::NaiveTime::MIN).and_utc().timestamp())
}

/// The year, month and day that chrono reads from the text `input` with the
/// format `"%Y-%m-%d"`, or `None` where it reads no date.
pub uninterp spec fn ymd_date(input: Seq<char>) -> Option<(int, int, int)>;

/// Calls `chrono::NaiveDate::parse_from_str(input, "%Y-%m-%d")` and hands
/// back the date's `year`, `month` and `day`. What the format accepts is left
/// to the name `ymd_date`; the parse depends on the text alone.
#[verifier::external_body]
pub(crate) fn parse_ymd(input: &str) -> (r: Option<(i32, u32, u32)>)
    ensures
        ymd_date(input@) == (match r {
            Some(d) => Some((d.0 as int, d.1 as int, d.2 as int)),
            None => None,
        }),
{
    let date = chrono::NaiveDate::parse_from_str(input, "%Y-%m-%d").ok()?;
    Some((chrono::Datelike::year(&date), chrono::Datelike::month(&date), chrono::Datelike::day(&date)))
}

/// The number of days from 1970-01-01 to the day `d` of month `m` of year
/// `y` in the proleptic Gregorian calendar (negative before 1970).
pub open spec fn epoch_days(y: int, m: int, d: int) -> int {
    let a = if m <= 2 { y - 1 } else { y };
    let mp = if m > 2 { m - 3 } else { m + 9 };
    365 * a + a / 4 - a / 100 + a / 400 + (153 * mp + 2) / 5 + d - 1 - 719468
}

/// Calls `chrono::NaiveDate::from_ymd_opt(y, m, d)`, then
/// `TimeZone::from_local_datetime` of `chrono::Local` on the midnight that
/// starts that day, and takes the `timestamp` of the single time that comes
/// back. `None` where there is no such date, or where the machine's time
/// zone has no midnight that day or two of them (`single` is `None`). The
/// seconds rest on the time zone, so no name is given: the contract states
/// what holds of every outcome. chrono's calendar is the proleptic Gregorian
/// one and its offsets (`FixedOffset`) lie strictly within a day of UTC, so
/// the seconds lie strictly within a day of the date's UTC midnight.
#[verifier::external_body]
pub(crate) fn local_midnight_seconds(y: i32, m: u32, d: u32) -> (r: Option<i64>)
    ensures
        r matches Some(s) ==> epoch_days(y as int, m as int, d as int) * 86400 - 86400 < s < epoch_days(
            y as int,
            m as int,
            d as int,
        ) * 86400 + 86400,
{
    let date = chrono::NaiveDate::from_ymd_opt(y, m, d)?;
    let local = chrono::TimeZone::from_local_datetime(&chrono::Local, &date.and_time(chrono::NaiveTime::MIN));
    Some(local.single()?.timestamp())
}

} // verus!
