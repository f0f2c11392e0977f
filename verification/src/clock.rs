//! The time stamp written in front of each log line: whole days since
//! 1970, then the time of day in hours and minutes (UTC).
use vstd::prelude::*;
use crate::text::{append_chars, chars_of, decimal, decimal_chars, string_from_chars};

verus! {

/// A number below 100 written with at least two digits, as `{:02}` does.
pub open spec fn two_digits(n: nat) -> Seq<char> {
    if n < 10 {
        "0"@ + decimal(n)
    } else {
        decimal(n)
    }
}

/// The time stamp for `secs` seconds since 1970: `<days>d <hh>:<mm>`.
pub open spec fn timestamp_text(secs: nat) -> Seq<char> {
    decimal(secs / 86400) + "d "@ + two_digits((secs / 3600) % 24) + ":"@ + two_digits(
        (secs / 60) % 60,
    )
}

fn two_digit_chars(n: u64) -> (r: Vec<char>)
    requires
        n < 100,
    ensures
        r@ == two_digits(n as nat),
{
    if n < 10 {
        let mut r = chars_of("0");
        append_chars(&mut r, &decimal_chars(n));
        r
    } else {
        decimal_chars(n)
    }
}

/// The time stamp for `secs` seconds since 1970.
pub fn log_timestamp(secs: u64) -> (r: String)
    ensures
        r@ == timestamp_text(secs as nat),
{
    let mins = (secs / 60) % 60;
    let hours = (secs / 3600) % 24;
    let days = secs / 86400;
    let mut t = decimal_chars(days);
    append_chars(&mut t, &chars_of("d "));
    append_chars(&mut t, &two_digit_chars(hours));
    append_chars(&mut t, &chars_of(":"));
    append_chars(&mut t, &two_digit_chars(mins));
    string_from_chars(&t)
}

} // verus!
