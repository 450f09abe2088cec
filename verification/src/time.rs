use vstd::prelude::*;

use chrono::{Datelike, Timelike};

verus! {

/// The local date and time written in an RFC 3339 text, as chrono reads it: year, month,
/// day, hour, minute, second and nanosecond (a leap second counts past one billion
/// nanoseconds); `None` when the text is not RFC 3339.
pub uninterp spec fn rfc3339_fields(text: Seq<char>) -> Option<(i32, u32, u32, u32, u32, u32, u32)>;

/// Calls `chrono::DateTime::parse_from_rfc3339` and reads the local date and time of the
/// result with `Datelike` and `Timelike`. Its parser takes the year as four digits, and
/// the accessors document months 1 to 12, days 1 to 31, hours 0 to 23, minutes and
/// seconds 0 to 59, and nanoseconds below two billion (leap seconds included).
#[verifier::external_body]
fn parse_rfc3339_fields(text: &str) -> (r: Option<(i32, u32, u32, u32, u32, u32, u32)>)
    ensures
        r == rfc3339_fields(text@),
        r matches Some((y, mo, d, h, mi, s, n)) ==> 0 <= y <= 9999 && 1 <= mo <= 12 && 1 <= d <= 31 && h <= 23
            && mi <= 59 && s <= 59 && n < 2_000_000_000,
{
    match chrono::DateTime::parse_from_rfc3339(text) {
        Ok(t) => Some((t.year(), t.month(), t.day(), t.hour(), t.minute(), t.second(), t.nanosecond())),
        Err(_) => None,
    }
}

pub open spec fn digit(n: int) -> char {
    (('0' as u32) + n) as char
}

/// `n` written with `width` digits, zero padded.
pub open spec fn padded(n: int, width: nat) -> Seq<char>
    decreases width,
{
    if width == 0 {
        Seq::empty()
    } else {
        padded(n / 10, (width - 1) as nat).push(digit(n % 10))
    }
}

fn push_padded(s: &mut String, n: u32, width: u32)
    requires
        width <= 4,
    ensures
        final(s)@ == old(s)@ + padded(n as int, width as nat),
    decreases width,
{
    if width > 0 {
        push_padded(s, n / 10, width - 1);
        let d = n % 10;
        let c = if d == 0 { '0' } else if d == 1 { '1' } else if d == 2 { '2' } else if d == 3 { '3' } else if d == 4 { '4' }
            else if d == 5 { '5' } else if d == 6 { '6' } else if d == 7 { '7' } else if d == 8 { '8' } else { '9' };
        assert(c == digit(n as int % 10));
        s.push(c);
    }
}

/// How the detail panel shows a session's start: `YYYY-mm-dd HH:MM:SS` in the time zone
/// it was written in, or the text itself when it is not RFC 3339.
pub open spec fn started_at_text(text: Seq<char>) -> Seq<char> {
    match rfc3339_fields(text) {
        None => text,
        Some((y, mo, d, h, mi, s, n)) => padded(y as int, 4) + seq!['-'] + padded(mo as int, 2) + seq!['-']
            + padded(d as int, 2) + seq![' '] + padded(h as int, 2) + seq![':'] + padded(mi as int, 2) + seq![':']
            + padded(s + n / 1_000_000_000, 2),
    }
}

/// Shows when a play session started.
pub fn format_started_at(started_at: String) -> (r: String)
    ensures
        r@ == started_at_text(started_at@),
{
    match parse_rfc3339_fields(started_at.as_str()) {
        None => started_at,
        Some((y, mo, d, h, mi, s, n)) => {
            let mut out = String::new();
            push_padded(&mut out, y as u32, 4);
            out.push('-');
            push_padded(&mut out, mo, 2);
            out.push('-');
            push_padded(&mut out, d, 2);
            out.push(' ');
            push_padded(&mut out, h, 2);
            out.push(':');
            push_padded(&mut out, mi, 2);
            out.push(':');
            push_padded(&mut out, s + n / 1_000_000_000, 2);
            assert(out@ =~= started_at_text(started_at@));
            out
        },
    }
}

} // verus!
