//! Short renderings of digests, numbers and instants for people.
use vstd::prelude::*;
use vstd::string::StringExecFns;
use crate::text::{chars_of, push_char, starts_with, starts_with_exec, string_of};
use crate::time::{seconds_since, timestamp_is_representable, utc_accepts_timestamp};

verus! {

/// The digest without a `sha256:` prefix, cut to at most 12 characters.
pub open spec fn spec_short_digest(digest: Seq<char>) -> Seq<char> {
    let hex = if starts_with(digest, "sha256:"@) {
        digest.subrange(7, digest.len() as int)
    } else {
        digest
    };
    if hex.len() <= 12 {
        hex
    } else {
        hex.take(12)
    }
}

/// Shorten "sha256:71388a4556..." to "71388a455697" for display.
pub fn format_short_digest(digest: &str) -> (r: String)
    ensures
        r@ == spec_short_digest(digest@),
{
    let d = chars_of(digest);
    let prefix = chars_of("sha256:");
    proof {
        reveal_strlit("sha256:");
    }
    let start: usize = if starts_with_exec(&d, &prefix) {
        7
    } else {
        0
    };
    let end = if d.len() - start <= 12 {
        d.len()
    } else {
        start + 12
    };
    let mut out = String::new();
    let mut i = start;
    while i < end
        invariant
            start <= i <= end <= d.len(),
            out@ == d@.subrange(start as int, i as int),
        decreases end - i,
    {
        push_char(&mut out, d[i]);
        proof {
            assert(d@.subrange(start as int, i + 1) =~= d@.subrange(start as int, i as int).push(
                d@[i as int],
            ));
        }
        i = i + 1;
    }
    proof {
        let hex = if starts_with(d@, "sha256:"@) {
            d@.subrange(7, d@.len() as int)
        } else {
            d@
        };
        assert(hex =~= d@.subrange(start as int, d@.len() as int));
        if hex.len() > 12 {
            assert(hex.take(12) =~= d@.subrange(start as int, end as int));
        } else {
            assert(hex =~= d@.subrange(start as int, end as int));
        }
    }
    out
}

pub open spec fn digit_char(d: nat) -> char {
    (('0' as u32) + d) as char
}

/// The decimal digits of `n`.
pub open spec fn decimal(n: nat) -> Seq<char>
    decreases n,
{
    if n < 10 {
        seq![digit_char(n)]
    } else {
        decimal(n / 10).push(digit_char(n % 10))
    }
}

/// `n` in decimal.
pub fn decimal_string(n: u64) -> (s: String)
    ensures
        s@ == decimal(n as nat),
{
    let mut digits: Vec<char> = Vec::new();
    let mut m = n;
    while m >= 10
        invariant
            decimal(n as nat) == decimal(m as nat) + digits@,
        decreases m,
    {
        let d = (m % 10) as u32;
        let c = char_of_digit(d);
        digits.insert(0, c);
        proof {
            assert(decimal(m as nat) == decimal((m / 10) as nat).push(digit_char((m % 10) as nat)));
            assert(decimal((m / 10) as nat).push(c) + old_digits(digits@) =~= decimal((m / 10) as nat) + digits@);
        }
        m = m / 10;
    }
    let mut out = String::new();
    push_char(&mut out, char_of_digit(m as u32));
    let mut i: usize = 0;
    while i < digits.len()
        invariant
            i <= digits.len(),
            out@ == decimal(m as nat) + digits@.take(i as int),
            decimal(n as nat) == decimal(m as nat) + digits@,
        decreases digits.len() - i,
    {
        push_char(&mut out, digits[i]);
        proof {
            assert(digits@.take(i + 1) =~= digits@.take(i as int).push(digits@[i as int]));
        }
        i = i + 1;
    }
    assert(digits@.take(digits.len() as int) =~= digits@);
    out
}

pub open spec fn old_digits(d: Seq<char>) -> Seq<char> {
    d.drop_first()
}

fn char_of_digit(d: u32) -> (c: char)
    requires
        d < 10,
    ensures
        c == digit_char(d as nat),
{
    match d {
        0 => '0',
        1 => '1',
        2 => '2',
        3 => '3',
        4 => '4',
        5 => '5',
        6 => '6',
        7 => '7',
        8 => '8',
        _ => '9',
    }
}

/// How long ago `delta` seconds is, for a person: in the future, just now,
/// in minutes below an hour, in hours below two days, else in days (each
/// rounded down).
pub open spec fn spec_relative_int(delta: int) -> Seq<char> {
    if delta < 0 {
        "in the future"@
    } else if delta < 60 {
        "just now"@
    } else if delta / 60 < 60 {
        decimal((delta / 60) as nat) + "m ago"@
    } else if delta / 3600 < 48 {
        decimal((delta / 3600) as nat) + "h ago"@
    } else {
        decimal((delta / 86400) as nat) + "d ago"@
    }
}

pub open spec fn spec_relative(delta: i64) -> Seq<char> {
    spec_relative_int(delta as int)
}

/// How long before `now` the instant `time` is, or "never" when there is
/// none (both in seconds since the Unix epoch).
pub open spec fn spec_ago(now: i64, time: Option<i64>) -> Seq<char> {
    match time {
        None => "never"@,
        Some(t) => spec_relative_int(now - t),
    }
}

/// How long before `now` the instant `time` was, for a person: what
/// [`format_relative_time`] says of `time` when the clock reads `now`.
pub fn format_ago(now: i64, time: Option<i64>) -> (r: String)
    ensures
        r@ == spec_ago(now, time),
{
    let t = match time {
        None => return String::from_str("never"),
        Some(t) => t,
    };
    let delta: i128 = now as i128 - t as i128;
    if delta < 0 {
        return String::from_str("in the future");
    }
    if delta < 60 {
        return String::from_str("just now");
    }
    if delta / 60 < 60 {
        let mut r = decimal_string((delta / 60) as u64);
        r.append("m ago");
        return r;
    }
    if delta / 3600 < 48 {
        let mut r = decimal_string((delta / 3600) as u64);
        r.append("h ago");
        return r;
    }
    let mut r = decimal_string((delta / 86400) as u64);
    r.append("d ago");
    r
}

/// How long ago something happened that happened `delta` whole seconds ago.
pub fn format_relative_delta(delta: i64) -> (r: String)
    ensures
        r@ == spec_relative(delta),
{
    if delta < 0 {
        return String::from_str("in the future");
    }
    if delta < 60 {
        return String::from_str("just now");
    }
    if delta / 60 < 60 {
        let mut r = decimal_string((delta / 60) as u64);
        r.append("m ago");
        return r;
    }
    if delta / 3600 < 48 {
        let mut r = decimal_string((delta / 3600) as u64);
        r.append("h ago");
        return r;
    }
    let mut r = decimal_string((delta / 86400) as u64);
    r.append("d ago");
    r
}

/// How long ago `time` (seconds since the Unix epoch) is, by the clock, or
/// "never" when there is no time. What the clock reads is not promised, so
/// the text is only known to be one of the renderings of some elapsed
/// duration.
pub fn format_relative_time(time: Option<i64>) -> (r: String)
    requires
        time matches Some(t) ==> utc_accepts_timestamp(t),
    ensures
        time is None ==> r@ == "never"@,
        time is Some ==> exists|delta: i64| r@ == spec_relative(delta),
{
    match time {
        None => String::from_str("never"),
        Some(t) => format_relative_delta(seconds_since(t)),
    }
}

/// [`format_relative_time`] for instants not known to be representable:
/// `None` for an instant beyond the dates the calendar can represent.
pub fn format_relative_time_checked(time: Option<i64>) -> (r: Option<String>)
    ensures
        r is None <==> (time matches Some(t) && !utc_accepts_timestamp(t)),
        time is None ==> (r matches Some(s) && s@ == "never"@),
        (time matches Some(t) && utc_accepts_timestamp(t)) ==> (r matches Some(s) && exists|
            delta: i64,
        | s@ == spec_relative(delta)),
{
    match time {
        Some(t) => if !timestamp_is_representable(t) {
            return None;
        },
        None => {},
    }
    Some(format_relative_time(time))
}

} // verus!
