//! The wall clock, read through the `time` crate, and how a time is written.

use crate::text::{chars_of, decimal, decimal_string, push_char};
use vstd::prelude::*;

verus! {

#[verifier::external_type_specification]
#[verifier::external_body]
pub struct ExOffsetDateTime(time::OffsetDateTime);

/// The calendar fields of an instant.
pub struct TimeParts {
    pub year: i32,
    /// 1 to 12.
    pub month: u8,
    /// 1 to 31.
    pub day: u8,
    pub hour: u8,
    pub minute: u8,
    pub second: u8,
    /// Below 1_000_000_000.
    pub nanosecond: u32,
}

/// The fields lie in the ranges the `time` crate documents for them.
pub open spec fn parts_valid(p: TimeParts) -> bool {
    &&& 1 <= p.month <= 12
    &&& 1 <= p.day <= 31
    &&& p.hour < 24
    &&& p.minute < 60
    &&& p.second < 60
    &&& p.nanosecond < 1_000_000_000
}

/// `time::OffsetDateTime::now_utc`: the current UTC time. It depends on the clock,
/// so nothing is stated of it.
#[verifier::external_body]
fn now_utc() -> (r: time::OffsetDateTime) {
    time::OffsetDateTime::now_utc()
}

/// The calendar fields of `t` (`OffsetDateTime::year`, `month` as its number,
/// `day`, `hour`, `minute`, `second`, `nanosecond`). The crate documents the month as
/// January = 1 to December = 12, the day in `1..=31`, the hour in `0..24`, the minute
/// and the second in `0..60`, the nanosecond in `0..1_000_000_000`; that is what is
/// stated.
#[verifier::external_body]
fn time_parts(t: &time::OffsetDateTime) -> (r: TimeParts)
    ensures
        parts_valid(r),
{
    TimeParts {
        year: t.year(),
        month: t.month() as u8,
        day: t.day(),
        hour: t.hour(),
        minute: t.minute(),
        second: t.second(),
        nanosecond: t.nanosecond(),
    }
}

/// What the `time` crate writes for the UTC instant with these fields and the format
/// description `pattern`; `None` where the fields make no instant or the description
/// or the formatting fails.
pub uninterp spec fn spec_utc_format(
    year: i32,
    month: u8,
    day: u8,
    hour: u8,
    minute: u8,
    second: u8,
    nanosecond: u32,
    pattern: Seq<char>,
) -> Option<Seq<char>>;

/// The UTC instant with the fields `p` (`Month::try_from`, `Date::from_calendar_date`,
/// `Time::from_hms_nano`, `PrimitiveDateTime::new`, `assume_utc`) written with the
/// format description `pattern` (`format_description::parse`, then
/// `OffsetDateTime::format`); `None` where any step fails. The result is named: it
/// depends on the fields and the pattern alone.
#[verifier::external_body]
fn format_utc(p: &TimeParts, pattern: &str) -> (r: Option<String>)
    ensures
        crate::session::opt_str(r) == spec_utc_format(
            p.year,
            p.month,
            p.day,
            p.hour,
            p.minute,
            p.second,
            p.nanosecond,
            pattern@,
        ),
{
    let month = time::Month::try_from(p.month).ok()?;
    let date = time::Date::from_calendar_date(p.year, month, p.day).ok()?;
    let clock = time::Time::from_hms_nano(p.hour, p.minute, p.second, p.nanosecond).ok()?;
    let items = time::format_description::parse(pattern).ok()?;
    time::PrimitiveDateTime::new(date, clock).assume_utc().format(&items).ok()
}

/// `k` zeros.
pub open spec fn zeros(k: nat) -> Seq<char> {
    Seq::new(k, |i: int| '0')
}

/// `n` in decimal, padded with leading zeros to at least `width` characters (what
/// `format!("{:0width$}", n)` writes).
pub open spec fn padded(n: nat, width: nat) -> Seq<char> {
    let d = decimal(n);
    if d.len() >= width {
        d
    } else {
        zeros((width - d.len()) as nat) + d
    }
}

/// `n` in decimal, padded with leading zeros to at least `width` characters.
pub fn padded_decimal(n: u64, width: usize) -> (r: String)
    ensures
        r@ == padded(n as nat, width as nat),
{
    let d = decimal_string(n);
    let len = chars_of(d.as_str()).len();
    if len >= width {
        return d;
    }
    let mut r = String::new();
    let mut i: usize = 0;
    while i < width - len
        invariant
            len < width,
            i <= width - len,
            r@ == zeros(i as nat),
        decreases width - len - i,
    {
        push_char(&mut r, '0');
        i = i + 1;
        assert(r@ =~= zeros(i as nat));
    }
    r.append(d.as_str());
    r
}

/// How a time is written when its format description cannot be used: year (taken
/// modulo 2^16) with four digits, `-`, month, `-`, day, `sep`, hour, `:`, minute,
/// `:`, second, each with two digits, then `suffix`.
pub open spec fn time_text(p: TimeParts, sep: Seq<char>, suffix: Seq<char>) -> Seq<char> {
    padded((p.year as u16) as nat, 4) + "-"@ + padded(p.month as nat, 2) + "-"@ + padded(p.day as nat, 2) + sep
        + padded(p.hour as nat, 2) + ":"@ + padded(p.minute as nat, 2) + ":"@ + padded(p.second as nat, 2)
        + suffix
}

/// A time as written: what its format description produced, else `time_text`.
pub fn written_time(formatted: Option<String>, p: &TimeParts, sep: &str, suffix: &str) -> (r: String)
    ensures
        match formatted {
            Some(s) => r@ == s@,
            None => r@ == time_text(*p, sep@, suffix@),
        },
{
    match formatted {
        Some(s) => s,
        None => {
            #[verifier::truncate]
            let year: u16 = p.year as u16;
            let mut r = padded_decimal(year as u64, 4);
            r.append("-");
            r.append(padded_decimal(p.month as u64, 2).as_str());
            r.append("-");
            r.append(padded_decimal(p.day as u64, 2).as_str());
            r.append(sep);
            r.append(padded_decimal(p.hour as u64, 2).as_str());
            r.append(":");
            r.append(padded_decimal(p.minute as u64, 2).as_str());
            r.append(":");
            r.append(padded_decimal(p.second as u64, 2).as_str());
            r.append(suffix);
            r
        },
    }
}

/// How the instant with the fields `p` is shown: written with the format description
/// `pattern`, else as `time_text` with `sep` and `suffix`.
pub open spec fn shown_time(p: TimeParts, pattern: Seq<char>, sep: Seq<char>, suffix: Seq<char>) -> Seq<char> {
    match spec_utc_format(p.year, p.month, p.day, p.hour, p.minute, p.second, p.nanosecond, pattern) {
        Some(s) => s,
        None => time_text(p, sep, suffix),
    }
}

/// The current UTC time as `shown_time` shows it. Which instant the clock gives is
/// not stated: the result is how some instant with valid fields is shown.
pub(crate) fn utc_now_formatted(pattern: &str, sep: &str, suffix: &str) -> (r: String)
    ensures
        exists|p: TimeParts| parts_valid(p) && r@ == #[trigger] shown_time(p, pattern@, sep@, suffix@),
{
    let now = now_utc();
    let parts = time_parts(&now);
    let formatted = format_utc(&parts, pattern);
    let r = written_time(formatted, &parts, sep, suffix);
    assert(r@ == shown_time(parts, pattern@, sep@, suffix@));
    r
}

} // verus!
