//! Timestamp formatting: civil calendar fields come from the `time` crate
//! through trusted items; the assembly into display text is verified.
use crate::util::{dec_str, dec_str_pad, int_str, push_u64_dec, push_u64_pad2, push_u64_pad4};
use vstd::prelude::*;

verus! {

/// Clock and time zone readings taken once per render pass: the local
/// offset from UTC in seconds, and the present unix timestamp.
#[derive(Clone, Copy)]
pub struct TimeContext {
    pub utc_offset: i64,
    pub now: i64,
}

/// The civil calendar decomposition of a unix timestamp: year, month, day,
/// hour, minute, second, and days of the weekday counted from Monday.
pub uninterp spec fn civil_of(ts: i64) -> (int, int, int, int, int, int, int);

/// Whether the timestamp lies in the range the calendar arithmetic covers.
pub uninterp spec fn civil_in_range(ts: i64) -> bool;

/// Relies on time::OffsetDateTime::from_unix_timestamp and its field
/// accessors: the civil decomposition of a timestamp depends on the
/// timestamp alone, and the crate documents each field's range.
#[verifier::external_body]
fn civil_decompose(ts: i64) -> (r: Option<(i32, u8, u8, u8, u8, u8, u8)>)
    ensures
        r.is_some() == civil_in_range(ts),
        match r {
            Option::Some(c) => {
                let (y, mo, d, h, mi, s, w) = civil_of(ts);
                c.0 as int == y && c.1 as int == mo && c.2 as int == d && c.3 as int == h
                    && c.4 as int == mi && c.5 as int == s && c.6 as int == w && 1 <= mo <= 12 && 1
                    <= d <= 31 && 0 <= h < 24 && 0 <= mi < 60 && 0 <= s < 60 && 0 <= w < 7
            },
            Option::None => true,
        },
{
    match time::OffsetDateTime::from_unix_timestamp(ts) {
        Ok(t) => Some(
            (
                t.year(),
                u8::from(t.month()),
                t.day(),
                t.hour(),
                t.minute(),
                t.second(),
                t.weekday().number_days_from_monday(),
            ),
        ),
        Err(_) => None,
    }
}

/// Relies on time::OffsetDateTime::now_utc: a reading of the system clock,
/// of which nothing is promised.
#[verifier::external_body]
pub fn unix_now() -> i64 {
    time::OffsetDateTime::now_utc().unix_timestamp()
}

/// Relies on chrono::Local and chrono::FixedOffset: the local offset from
/// UTC in seconds; a FixedOffset always lies strictly within one day.
#[verifier::external_body]
pub fn local_utc_offset() -> (r: i64)
    ensures
        -86400 < r < 86400,
{
    chrono::offset::Local::now().offset().local_minus_utc() as i64
}

/// The long name of a month, counted from one.
pub open spec fn month_name(m: int) -> Seq<char> {
    if m == 1 {
        "January"@
    } else if m == 2 {
        "February"@
    } else if m == 3 {
        "March"@
    } else if m == 4 {
        "April"@
    } else if m == 5 {
        "May"@
    } else if m == 6 {
        "June"@
    } else if m == 7 {
        "July"@
    } else if m == 8 {
        "August"@
    } else if m == 9 {
        "September"@
    } else if m == 10 {
        "October"@
    } else if m == 11 {
        "November"@
    } else {
        "December"@
    }
}

/// The long name of a weekday, counted in days from Monday.
pub open spec fn weekday_name(w: int) -> Seq<char> {
    if w == 0 {
        "Monday"@
    } else if w == 1 {
        "Tuesday"@
    } else if w == 2 {
        "Wednesday"@
    } else if w == 3 {
        "Thursday"@
    } else if w == 4 {
        "Friday"@
    } else if w == 5 {
        "Saturday"@
    } else {
        "Sunday"@
    }
}

fn month_name_str(m: u64) -> (r: &'static str)
    ensures
        r@ == month_name(m as int),
{
    if m == 1 {
        "January"
    } else if m == 2 {
        "February"
    } else if m == 3 {
        "March"
    } else if m == 4 {
        "April"
    } else if m == 5 {
        "May"
    } else if m == 6 {
        "June"
    } else if m == 7 {
        "July"
    } else if m == 8 {
        "August"
    } else if m == 9 {
        "September"
    } else if m == 10 {
        "October"
    } else if m == 11 {
        "November"
    } else {
        "December"
    }
}

fn weekday_name_str(w: u64) -> (r: &'static str)
    ensures
        r@ == weekday_name(w as int),
{
    if w == 0 {
        "Monday"
    } else if w == 1 {
        "Tuesday"
    } else if w == 2 {
        "Wednesday"
    } else if w == 3 {
        "Thursday"
    } else if w == 4 {
        "Friday"
    } else if w == 5 {
        "Saturday"
    } else {
        "Sunday"
    }
}

/// A year padded to four digits, signed when negative.
pub open spec fn year_str(y: int) -> Seq<char> {
    if y < 0 {
        seq!['-'] + dec_str_pad((-y) as nat, 4)
    } else {
        dec_str_pad(y as nat, 4)
    }
}

fn push_year(out: &mut String, y: i32)
    ensures
        final(out)@ == old(out)@ + year_str(y as int),
{
    let yy: i64 = y as i64;
    if yy < 0 {
        out.append("-");
        push_u64_pad4(out, (-yy) as u64);
        proof {
            reveal_strlit("-");
            assert("-"@ =~= seq!['-']);
            assert(old(out)@ + seq!['-'] + dec_str_pad((-yy) as nat, 4) =~= old(out)@ + (seq!['-']
                + dec_str_pad((-yy) as nat, 4)));
        }
    } else {
        push_u64_pad4(out, yy as u64);
    }
}

/// The relative wording of a duration in seconds, as the service shows it.
pub open spec fn spec_humanize(n: int) -> Seq<char> {
    let a = if n >= 0 {
        n
    } else {
        -n
    };
    if a < 2 {
        if n >= 0 {
            "just now"@
        } else {
            "now"@
        }
    } else if a < 60 {
        if n >= 0 {
            dec_str(n as nat) + " seconds ago"@
        } else {
            "in "@ + dec_str(a as nat) + " seconds"@
        }
    } else if a < 120 {
        if n >= 0 {
            "about a minute ago"@
        } else {
            "in about a minute"@
        }
    } else if a < 3600 {
        if n >= 0 {
            dec_str((n / 60) as nat) + " minutes ago"@
        } else {
            "in "@ + dec_str((a / 60) as nat) + " minutes"@
        }
    } else if a < 7200 {
        if n >= 0 {
            "about an hour ago"@
        } else {
            "in about an hour"@
        }
    } else if a < 86400 {
        if n >= 0 {
            dec_str((n / 3600) as nat) + " hours ago"@
        } else {
            "in "@ + dec_str((a / 3600) as nat) + " hours"@
        }
    } else if a < 172800 {
        if n >= 0 {
            "1 day ago"@
        } else {
            "in 1 day"@
        }
    } else if a < 2505600 {
        if n >= 0 {
            dec_str((n / 86400) as nat) + " days ago"@
        } else {
            "in "@ + dec_str((a / 86400) as nat) + " days"@
        }
    } else if a < 5184000 {
        if n >= 0 {
            "about a month ago"@
        } else {
            "in about a month"@
        }
    } else if a / 2505600 < 12 {
        if n >= 0 {
            dec_str((n / 2505600) as nat) + " months ago"@
        } else {
            "in "@ + dec_str((a / 2505600) as nat) + " months"@
        }
    } else {
        let days = if n >= 0 {
            n / 86400
        } else {
            -(a / 86400)
        };
        let years = if days >= 0 {
            (days + 364) / 365
        } else {
            -((-days) / 365)
        };
        let ay = if years >= 0 {
            years
        } else {
            -years
        };
        if ay < 2 {
            if years >= 0 {
                "a year ago"@
            } else {
                "in a year"@
            }
        } else if years >= 0 {
            dec_str(years as nat) + " years ago"@
        } else {
            "in "@ + int_str(years) + " years"@
        }
    }
}

/// The display text of a timestamp under one of the service's style letters.
pub open spec fn spec_fmt_timestamp(ts: i64, style: char, tc: TimeContext) -> Seq<char> {
    if style == 'R' {
        spec_humanize(tc.now - ts)
    } else {
        let sum = ts + tc.utc_offset;
        if sum < i64::MIN || sum > i64::MAX || !civil_in_range((ts + tc.utc_offset) as i64) {
            "<invalid timestamp>"@
        } else {
            let (y, mo, d, h, mi, s, w) = civil_of((ts + tc.utc_offset) as i64);
            if style == 't' {
                dec_str_pad(h as nat, 2) + ":"@ + dec_str_pad(mi as nat, 2)
            } else if style == 'T' {
                dec_str_pad(h as nat, 2) + ":"@ + dec_str_pad(mi as nat, 2) + ":"@ + dec_str_pad(
                    s as nat,
                    2,
                )
            } else if style == 'd' {
                dec_str_pad(d as nat, 2) + "/"@ + dec_str_pad(mo as nat, 2) + "/"@ + year_str(y)
            } else if style == 'D' {
                dec_str_pad(d as nat, 2) + " "@ + month_name(mo) + " "@ + year_str(y)
            } else if style == 'f' {
                dec_str_pad(d as nat, 2) + " "@ + month_name(mo) + " "@ + year_str(y) + " "@
                    + dec_str_pad(h as nat, 2) + ":"@ + dec_str_pad(mi as nat, 2)
            } else if style == 'F' {
                weekday_name(w) + ", "@ + dec_str_pad(d as nat, 2) + " "@ + month_name(mo) + " "@
                    + year_str(y) + " "@ + dec_str_pad(h as nat, 2) + ":"@ + dec_str_pad(
                    mi as nat,
                    2,
                )
            } else {
                "<invalid timestamp>"@
            }
        }
    }
}

/// The relative wording of a duration of seconds.
pub fn humanize_duration(seconds: i128) -> (r: String)
    requires
        seconds > i128::MIN,
    ensures
        r@ == spec_humanize(seconds as int),
{
    let n = seconds;
    let a: i128 = if n >= 0 {
        n
    } else {
        -n
    };
    let mut out = String::new();
    if a < 2 {
        if n >= 0 {
            out.append("just now");
        } else {
            out.append("now");
        }
    } else if a < 60 {
        if n >= 0 {
            push_u64_dec(&mut out, n as u64);
            out.append(" seconds ago");
        } else {
            out.append("in ");
            push_u64_dec(&mut out, a as u64);
            out.append(" seconds");
        }
    } else if a < 120 {
        if n >= 0 {
            out.append("about a minute ago");
        } else {
            out.append("in about a minute");
        }
    } else if a < 3600 {
        if n >= 0 {
            push_u64_dec(&mut out, (n / 60) as u64);
            out.append(" minutes ago");
        } else {
            out.append("in ");
            push_u64_dec(&mut out, (a / 60) as u64);
            out.append(" minutes");
        }
    } else if a < 7200 {
        if n >= 0 {
            out.append("about an hour ago");
        } else {
            out.append("in about an hour");
        }
    } else if a < 86400 {
        if n >= 0 {
            push_u64_dec(&mut out, (n / 3600) as u64);
            out.append(" hours ago");
        } else {
            out.append("in ");
            push_u64_dec(&mut out, (a / 3600) as u64);
            out.append(" hours");
        }
    } else if a < 172800 {
        if n >= 0 {
            out.append("1 day ago");
        } else {
            out.append("in 1 day");
        }
    } else if a < 2505600 {
        if n >= 0 {
            push_u64_dec(&mut out, (n / 86400) as u64);
            out.append(" days ago");
        } else {
            out.append("in ");
            push_u64_dec(&mut out, (a / 86400) as u64);
            out.append(" days");
        }
    } else if a < 5184000 {
        if n >= 0 {
            out.append("about a month ago");
        } else {
            out.append("in about a month");
        }
    } else if a / 2505600 < 12 {
        if n >= 0 {
            push_u64_dec(&mut out, (n / 2505600) as u64);
            out.append(" months ago");
        } else {
            out.append("in ");
            push_u64_dec(&mut out, (a / 2505600) as u64);
            out.append(" months");
        }
    } else {
        let days: i128 = if n >= 0 {
            n / 86400
        } else {
            -(a / 86400)
        };
        let years: i128 = if days >= 0 {
            (days + 364) / 365
        } else {
            -((-days) / 365)
        };
        let ay: i128 = if years >= 0 {
            years
        } else {
            -years
        };
        if ay < 2 {
            if years >= 0 {
                out.append("a year ago");
            } else {
                out.append("in a year");
            }
        } else if years >= 0 {
            push_u128_dec(&mut out, years as u128);
            out.append(" years ago");
        } else {
            out.append("in ");
            out.append("-");
            push_u128_dec(&mut out, (-years) as u128);
            out.append(" years");
            proof {
                reveal_strlit("-");
                assert("-"@ =~= seq!['-']);
            }
        }
    }
    proof {
        assert(out@ =~= spec_humanize(seconds as int));
    }
    out
}

fn digit_str128(d: u128) -> (r: &'static str)
    requires
        d < 10,
    ensures
        r@ == seq![crate::util::dec_digit(d as nat)],
{
    proof {
        reveal_strlit("0");
        reveal_strlit("1");
        reveal_strlit("2");
        reveal_strlit("3");
        reveal_strlit("4");
        reveal_strlit("5");
        reveal_strlit("6");
        reveal_strlit("7");
        reveal_strlit("8");
        reveal_strlit("9");
    }
    if d == 0 {
        "0"
    } else if d == 1 {
        "1"
    } else if d == 2 {
        "2"
    } else if d == 3 {
        "3"
    } else if d == 4 {
        "4"
    } else if d == 5 {
        "5"
    } else if d == 6 {
        "6"
    } else if d == 7 {
        "7"
    } else if d == 8 {
        "8"
    } else {
        "9"
    }
}

/// Append the decimal form of a wide number to the output.
fn push_u128_dec(out: &mut String, n: u128)
    ensures
        final(out)@ == old(out)@ + dec_str(n as nat),
    decreases n,
{
    if n >= 10 {
        push_u128_dec(out, n / 10);
    }
    out.append(digit_str128(n % 10));
    proof {
        if n >= 10 {
            assert(old(out)@ + dec_str((n / 10) as nat) + seq![crate::util::dec_digit(
                (n % 10) as nat,
            )] =~= old(out)@ + (dec_str((n / 10) as nat) + seq![crate::util::dec_digit(
                (n % 10) as nat,
            )]));
        }
    }
}

/// The display text of a timestamp under one of the service's style letters.
pub fn fmt_timestamp(timestamp: i64, style: char, tc: &TimeContext) -> (r: String)
    ensures
        r@ == spec_fmt_timestamp(timestamp, style, *tc),
{
    let mut out = String::new();
    if style == 'R' {
        let diff: i128 = (tc.now as i128) - (timestamp as i128);
        return humanize_duration(diff);
    }
    let sum_wide: i128 = (timestamp as i128) + (tc.utc_offset as i128);
    if sum_wide < i64::MIN as i128 || sum_wide > i64::MAX as i128 {
        out.append("<invalid timestamp>");
        return out;
    }
    let sum: i64 = sum_wide as i64;
    match civil_decompose(sum) {
        Option::None => {
            out.append("<invalid timestamp>");
            out
        },
        Option::Some(c) => {
            let (y, mo, d, h, mi, s, w) = c;
            if style == 't' {
                push_u64_pad2(&mut out, h as u64);
                out.append(":");
                push_u64_pad2(&mut out, mi as u64);
            } else if style == 'T' {
                push_u64_pad2(&mut out, h as u64);
                out.append(":");
                push_u64_pad2(&mut out, mi as u64);
                out.append(":");
                push_u64_pad2(&mut out, s as u64);
            } else if style == 'd' {
                push_u64_pad2(&mut out, d as u64);
                out.append("/");
                push_u64_pad2(&mut out, mo as u64);
                out.append("/");
                push_year(&mut out, y);
            } else if style == 'D' {
                push_u64_pad2(&mut out, d as u64);
                out.append(" ");
                out.append(month_name_str(mo as u64));
                out.append(" ");
                push_year(&mut out, y);
            } else if style == 'f' {
                push_u64_pad2(&mut out, d as u64);
                out.append(" ");
                out.append(month_name_str(mo as u64));
                out.append(" ");
                push_year(&mut out, y);
                out.append(" ");
                push_u64_pad2(&mut out, h as u64);
                out.append(":");
                push_u64_pad2(&mut out, mi as u64);
            } else if style == 'F' {
                out.append(weekday_name_str(w as u64));
                out.append(", ");
                push_u64_pad2(&mut out, d as u64);
                out.append(" ");
                out.append(month_name_str(mo as u64));
                out.append(" ");
                push_year(&mut out, y);
                out.append(" ");
                push_u64_pad2(&mut out, h as u64);
                out.append(":");
                push_u64_pad2(&mut out, mi as u64);
            } else {
                out.append("<invalid timestamp>");
            }
            out
        },
    }
}

} // verus!
