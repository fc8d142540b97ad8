//! Dates of the schema type `date` and their time zones.
use vstd::prelude::*;

use chrono::{FixedOffset, NaiveDate};

use crate::runtime::{is_digit, FromXmlString};
use crate::text::{chars_of, str_eq, string_of_range};

verus! {

#[verifier::external_type_specification]
#[verifier::external_body]
pub struct ExFixedOffset(chrono::FixedOffset);

/// What `FixedOffset::local_minus_utc` returns: the seconds to add to UTC
/// to get the local time.
pub uninterp spec fn local_minus_utc(o: FixedOffset) -> int;

/// `FixedOffset::east`: the offset `secs` seconds east of UTC. It panics
/// outside a day either way, which `requires` leaves out.
#[verifier::external_body]
#[allow(deprecated)]
fn offset_east(secs: i32) -> (r: FixedOffset)
    requires
        -86_400 < secs < 86_400,
    ensures
        local_minus_utc(r) == secs,
{
    FixedOffset::east(secs)
}

/// `FixedOffset::west`: the offset `secs` seconds west of UTC. It panics
/// outside a day either way, which `requires` leaves out.
#[verifier::external_body]
#[allow(deprecated)]
fn offset_west(secs: i32) -> (r: FixedOffset)
    requires
        -86_400 < secs < 86_400,
    ensures
        local_minus_utc(r) == -secs,
{
    FixedOffset::west(secs)
}

/// The value of a decimal digit.
pub open spec fn digit_value(c: char) -> int {
    (c as int) - ('0' as int)
}

/// Whether `rest` is written `hh:mm` in decimal digits.
pub open spec fn clock_shape(rest: Seq<char>) -> bool {
    &&& rest.len() == 5
    &&& is_digit(rest[0]) && is_digit(rest[1])
    &&& rest[2] == ':'
    &&& is_digit(rest[3]) && is_digit(rest[4])
}

/// What a time zone written `s` stands for, in seconds east of UTC, or the
/// message that rejects it: `Z`, or a sign and `hh:mm` up to fourteen
/// hours.
pub open spec fn timezone_seconds(s: Seq<char>) -> Result<int, Seq<char>> {
    if s == "Z"@ {
        Ok(0)
    } else {
        let rest = s.drop_first();
        if !clock_shape(rest) {
            Err("bad timezone format"@)
        } else {
            let hours = digit_value(rest[0]) * 10 + digit_value(rest[1]);
            let minutes = digit_value(rest[3]) * 10 + digit_value(rest[4]);
            if hours > 14 || (hours == 14 && minutes != 0) || minutes >= 60 {
                Err("bad timezone format: out of range"@)
            } else if s[0] == '+' {
                Ok(60 * (60 * hours + minutes))
            } else if s[0] == '-' {
                Ok(-(60 * (60 * hours + minutes)))
            } else {
                Err("bad timezone format: timezone should start with '+' or '-'"@)
            }
        }
    }
}

/// Reads a time zone: `Z`, or `+hh:mm` / `-hh:mm` up to fourteen hours.
/// Its first character must be a single byte, as it is cut off by bytes.
pub fn parse_timezone(s: &str) -> (r: Result<FixedOffset, String>)
    requires
        s@ == "Z"@ || (s@.len() > 0 && (s@[0] as int) < 128),
    ensures
        match r {
            Ok(o) => timezone_seconds(s@) == Ok::<int, Seq<char>>(local_minus_utc(o)),
            Err(e) => timezone_seconds(s@) == Err::<int, Seq<char>>(e@),
        },
{
    if str_eq(s, "Z") {
        return Ok(offset_east(0));
    }
    let cs = chars_of(s);
    let ghost rest = s@.drop_first();
    let shaped = cs.len() == 6 && '0' <= cs[1] && cs[1] <= '9' && '0' <= cs[2] && cs[2] <= '9' && cs[3] == ':'
        && '0' <= cs[4] && cs[4] <= '9' && '0' <= cs[5] && cs[5] <= '9';
    assert(shaped == clock_shape(rest)) by {
        if cs.len() == 6 {
            assert(rest[0] == cs@[1] && rest[1] == cs@[2] && rest[2] == cs@[3] && rest[3] == cs@[4] && rest[4]
                == cs@[5]);
        }
    }
    if !shaped {
        return Err("bad timezone format".to_owned());
    }
    let hours: i32 = ((cs[1] as u32 - '0' as u32) * 10 + (cs[2] as u32 - '0' as u32)) as i32;
    let minutes: i32 = ((cs[4] as u32 - '0' as u32) * 10 + (cs[5] as u32 - '0' as u32)) as i32;
    assert(hours == digit_value(rest[0]) * 10 + digit_value(rest[1]));
    assert(minutes == digit_value(rest[3]) * 10 + digit_value(rest[4]));
    if hours > 14 || (hours == 14 && minutes != 0) || minutes >= 60 {
        return Err("bad timezone format: out of range".to_owned());
    }
    let offset = 60 * (60 * hours + minutes);
    if cs[0] == '+' {
        Ok(offset_east(offset))
    } else if cs[0] == '-' {
        Ok(offset_west(offset))
    } else {
        Err("bad timezone format: timezone should start with '+' or '-'".to_owned())
    }
}

#[verifier::external_type_specification]
#[verifier::external_body]
pub struct ExNaiveDate(chrono::NaiveDate);

/// What `NaiveDate::parse_from_str(text, "%Y-%m-%d")` gives for `text`:
/// the date, or the text of its error.
pub uninterp spec fn calendar_date(text: Seq<char>) -> Result<NaiveDate, Seq<char>>;

/// `NaiveDate::parse_from_str` with the format `%Y-%m-%d`; its error is
/// kept as text.
#[verifier::external_body]
fn parse_naive_date(s: &str) -> (r: Result<NaiveDate, String>)
    ensures
        match r {
            Ok(d) => calendar_date(s@) == Ok::<NaiveDate, Seq<char>>(d),
            Err(e) => calendar_date(s@) == Err::<NaiveDate, Seq<char>>(e@),
        },
{
    match NaiveDate::parse_from_str(s, "%Y-%m-%d") {
        Ok(d) => Ok(d),
        Err(e) => Err(e.to_string()),
    }
}

/// How many times `c` occurs in `s`.
pub open spec fn count_of(s: Seq<char>, c: char) -> nat
    decreases s.len(),
{
    if s.len() == 0 {
        0
    } else {
        count_of(s.drop_last(), c) + if s.last() == c {
            1nat
        } else {
            0nat
        }
    }
}

/// The index of the occurrence of `c` in `s` that has `n` more before it,
/// looking from index `i` on; the length of `s` when there is none.
pub open spec fn nth_from(s: Seq<char>, c: char, n: nat, i: int) -> int
    decreases s.len() - i,
{
    if i < 0 || i >= s.len() {
        s.len() as int
    } else if s[i] == c {
        if n == 0 {
            i
        } else {
            nth_from(s, c, (n - 1) as nat, i + 1)
        }
    } else {
        nth_from(s, c, n, i + 1)
    }
}

/// How a date is cut into its calendar part and its time zone: a final
/// `Z`; else one `+` (two are an error); else a third `-`; else no zone.
pub open spec fn date_split(s: Seq<char>) -> Result<(Seq<char>, Option<Seq<char>>), Seq<char>> {
    if s.len() > 0 && s.last() == 'Z' {
        Ok((s.drop_last(), Some("Z"@)))
    } else if count_of(s, '+') > 1 {
        Err("bad date format"@)
    } else if count_of(s, '+') == 1 {
        let k = nth_from(s, '+', 0, 0);
        Ok((s.take(k), Some(s.skip(k))))
    } else if count_of(s, '-') == 3 {
        let k = nth_from(s, '-', 2, 0);
        Ok((s.take(k), Some(s.skip(k))))
    } else {
        Ok((s, None))
    }
}

/// Counts `c` in `cs`, and finds its occurrence with `n` before it.
fn scan(cs: &Vec<char>, c: char, n: usize) -> (r: (usize, usize))
    ensures
        r.0 == count_of(cs@, c),
        r.1 == nth_from(cs@, c, n as nat, 0),
        r.1 <= cs@.len(),
        r.1 < cs@.len() ==> cs@[r.1 as int] == c,
        r.0 > n ==> r.1 < cs@.len(),
{
    let ghost s = cs@;
    let mut count: usize = 0;
    let mut found: Option<usize> = None;
    let mut remaining: usize = n;
    let mut i: usize = 0;
    assert(s.take(0) =~= Seq::<char>::empty());
    while i < cs.len()
        invariant
            s == cs@,
            i <= s.len(),
            count <= i,
            count == count_of(s.take(i as int), c),
            found is None ==> count + remaining == n,
            found is Some ==> count > n,
            match found {
                Some(p) => nth_from(s, c, n as nat, 0) == p && p < s.len() && s[p as int] == c,
                None => nth_from(s, c, n as nat, 0) == nth_from(s, c, remaining as nat, i as int),
            },
        decreases s.len() - i,
    {
        assert(s.take(i + 1).drop_last() =~= s.take(i as int));
        if cs[i] == c {
            count += 1;
            match found {
                None => {
                    if remaining == 0 {
                        found = Some(i);
                    } else {
                        remaining -= 1;
                    }
                },
                Some(_) => {},
            }
        }
        i += 1;
    }
    assert(s.take(i as int) =~= s);
    match found {
        Some(p) => (count, p),
        None => (count, cs.len()),
    }
}

/// A date of the schema type `date`: the calendar day and, where it is
/// written, the time zone.
#[derive(Debug)]
pub struct Date {
    pub value: NaiveDate,
    pub timezone: Option<FixedOffset>,
}

/// Whether `d` is the date read from the calendar text `date` (already
/// read as `value`) and the zone text `zone`.
pub open spec fn assembled(value: Result<NaiveDate, Seq<char>>, zone: Option<Seq<char>>, r: Result<Date, Seq<char>>) -> bool {
    match value {
        Err(m) => r == Err::<Date, Seq<char>>(m),
        Ok(v) => match zone {
            None => r matches Ok(d) && d.value == v && d.timezone is None,
            Some(z) => match timezone_seconds(z) {
                Err(m) => r == Err::<Date, Seq<char>>(m),
                Ok(secs) => r matches Ok(d) && d.value == v && (d.timezone matches Some(o) && local_minus_utc(o) == secs),
            },
        },
    }
}

impl Date {
    /// The date made of a read calendar day and the text of its zone, if
    /// any; an error of either is the error of the date, the day's first.
    /// The zone's first character must be a single byte.
    pub fn assemble(value: Result<NaiveDate, String>, zone: Option<&str>) -> (r: Result<Date, String>)
        requires
            zone matches Some(z) ==> z@ == "Z"@ || (z@.len() > 0 && (z@[0] as int) < 128),
        ensures
            assembled(
                match value {
                    Ok(v) => Ok::<NaiveDate, Seq<char>>(v),
                    Err(m) => Err::<NaiveDate, Seq<char>>(m@),
                },
                match zone {
                    Some(z) => Some(z@),
                    None => None::<Seq<char>>,
                },
                match r {
                    Ok(d) => Ok::<Date, Seq<char>>(d),
                    Err(m) => Err::<Date, Seq<char>>(m@),
                },
            ),
    {
        let v = match value {
            Ok(v) => v,
            Err(m) => {
                return Err(m);
            },
        };
        match zone {
            None => Ok(Date { value: v, timezone: None }),
            Some(z) => match parse_timezone(z) {
                Ok(o) => Ok(Date { value: v, timezone: Some(o) }),
                Err(m) => Err(m),
            },
        }
    }
}

impl FromXmlString for Date {
    open spec fn reads_as(s: Seq<char>, v: Date) -> bool {
        match date_split(s) {
            Ok((d, zone)) => assembled(calendar_date(d), zone, Ok::<Date, Seq<char>>(v)),
            Err(_) => false,
        }
    }

    open spec fn fails_with(s: Seq<char>, msg: Seq<char>) -> bool {
        match date_split(s) {
            Ok((d, zone)) => exists|r: Result<Date, Seq<char>>| r == Err::<Date, Seq<char>>(msg) && #[trigger] assembled(calendar_date(d), zone, r),
            Err(m) => msg == m,
        }
    }

    fn from_xml(string: &str) -> (r: Result<Date, String>) {
        let cs = chars_of(string);
        let ghost s = string@;
        if cs.len() > 0 && cs[cs.len() - 1] == 'Z' {
            let d = string_of_range(&cs, 0, cs.len() - 1);
            assert(d@ =~= s.drop_last());
            let r = Date::assemble(parse_naive_date(d.as_str()), Some("Z"));
            return r;
        }
        let (plus, plus_at) = scan(&cs, '+', 0);
        if plus > 1 {
            return Err("bad date format".to_owned());
        }
        let cut = if plus == 1 {
            plus_at
        } else {
            let (dash, dash_at) = scan(&cs, '-', 2);
            if dash == 3 {
                dash_at
            } else {
                cs.len()
            }
        };
        if cut < cs.len() {
            let d = string_of_range(&cs, 0, cut);
            let z = string_of_range(&cs, cut, cs.len());
            assert(d@ =~= s.take(cut as int));
            assert(z@ =~= s.skip(cut as int));
            Date::assemble(parse_naive_date(d.as_str()), Some(z.as_str()))
        } else {
            Date::assemble(parse_naive_date(string), None)
        }
    }
}

} // verus!
