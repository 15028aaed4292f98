//! The local time and its formatting with a strftime format, by `chrono`.

use vstd::prelude::*;
use chrono::{Datelike, Timelike};
use std::fmt::Write;
use crate::config::opt_view;

verus! {

/// A reading of chrono's clock, `DateTime<FixedOffset>`.  Verus refuses a
/// declaration of chrono's `DateTime`, whose parameter is bound by chrono's
/// `TimeZone` trait, so the value is held here out of its sight.
#[verifier::external_body]
pub struct ClockReading {
    value: chrono::DateTime<chrono::FixedOffset>,
}

/// A moment as the fields that formatting reads: the local date and time
/// and the offset from UTC in seconds.
pub struct TimeFields {
    pub year: i32,
    pub month: u32,
    pub day: u32,
    pub hour: u32,
    pub minute: u32,
    pub second: u32,
    pub nanosecond: u32,
    pub utc_offset_seconds: i32,
}

/// A moment of the local clock, with its fields.
pub struct LocalTime {
    reading: ClockReading,
    fields: TimeFields,
}

impl LocalTime {
    /// The fields of the moment.
    pub closed spec fn view(&self) -> TimeFields {
        self.fields
    }
}

/// What chrono writes for a moment with a strftime format, `None` when
/// formatting fails.
pub uninterp spec fn strftime_text(t: TimeFields, fmt: Seq<char>) -> Option<Seq<char>>;

/// Whether `c` after `%` is a numeric conversion, the only kind a padding
/// flag (`-`, `0`, `_`) may modify.
pub open spec fn numeric_spec(c: char) -> bool {
    c == 'C' || c == 'G' || c == 'H' || c == 'I' || c == 'M' || c == 'S' || c == 'U' || c == 'V'
        || c == 'W' || c == 'Y' || c == 'd' || c == 'e' || c == 'f' || c == 'g' || c == 'j' || c
        == 'k' || c == 'l' || c == 'm' || c == 'q' || c == 's' || c == 'u' || c == 'w' || c == 'y'
}

/// Whether `c` after `%` is a conversion of one character: numeric ones,
/// those that expand to several items (`%D %F %R %T %X %c %r %v %x`), the
/// names and offsets (`%A %B %P %Z %a %b %h %p %z %+`), `%n`, `%t` and `%%`.
pub open spec fn simple_spec(c: char) -> bool {
    ||| numeric_spec(c)
    ||| c == 'D' || c == 'F' || c == 'R' || c == 'T' || c == 'X' || c == 'c' || c == 'r' || c == 'v'
        || c == 'x'
    ||| c == 'A' || c == 'B' || c == 'P' || c == 'Z' || c == 'a' || c == 'b' || c == 'h' || c == 'p'
        || c == 'z' || c == '+'
    ||| c == 'n' || c == 't' || c == '%'
}

/// How many characters a specifier takes after its `%`, `None` when chrono
/// cannot format it: the simple ones, `%:z %::z %:::z`, `%.f %.3f %.6f
/// %.9f`, `%3f %6f %9f`, and a padding flag before a numeric conversion.
/// `%#z` parses but fails when written; anything else is an error.
pub open spec fn spec_length(r: Seq<char>) -> Option<nat> {
    if r.len() == 0 {
        None
    } else {
        let c = r[0];
        if c == '-' || c == '0' || c == '_' {
            if r.len() >= 2 && numeric_spec(r[1]) {
                Some(2)
            } else {
                None
            }
        } else if simple_spec(c) {
            Some(1)
        } else if c == ':' {
            if r.len() >= 4 && r[1] == ':' && r[2] == ':' && r[3] == 'z' {
                Some(4)
            } else if r.len() >= 3 && r[1] == ':' && r[2] == 'z' {
                Some(3)
            } else if r.len() >= 2 && r[1] == 'z' {
                Some(2)
            } else {
                None
            }
        } else if c == '.' {
            if r.len() >= 2 && r[1] == 'f' {
                Some(2)
            } else if r.len() >= 3 && (r[1] == '3' || r[1] == '6' || r[1] == '9') && r[2] == 'f' {
                Some(3)
            } else {
                None
            }
        } else if c == '3' || c == '6' || c == '9' {
            if r.len() >= 2 && r[1] == 'f' {
                Some(2)
            } else {
                None
            }
        } else {
            None
        }
    }
}

/// A specifier takes at least one character after its `%`, and no more
/// than there are.
pub proof fn lemma_spec_length_bound(r: Seq<char>)
    ensures
        spec_length(r) matches Some(n) ==> 1 <= n <= r.len(),
{
}

/// Whether chrono formats a moment with `fmt` without error: text outside
/// specifiers is copied, and every specifier is one it can write.  For a
/// full date, time and offset this does not depend on the moment.
pub open spec fn strftime_ok(fmt: Seq<char>) -> bool
    decreases fmt.len(),
{
    if fmt.len() == 0 {
        true
    } else if fmt[0] != '%' {
        strftime_ok(fmt.drop_first())
    } else {
        match spec_length(fmt.drop_first()) {
            None => false,
            Some(n) => {
                proof {
                    lemma_spec_length_bound(fmt.drop_first());
                }
                strftime_ok(fmt.skip((n + 1) as int))
            },
        }
    }
}

/// Whether a format holds no `%`.
pub open spec fn has_no_percent(fmt: Seq<char>) -> bool {
    forall|j: int| 0 <= j < fmt.len() ==> fmt[j] != '%'
}

/// The current local time: chrono's `Local::now()`, with its fixed offset,
/// and its fields read by `Datelike` and `Timelike`.  It depends on the
/// clock and the time zone, so nothing is stated of it.
#[verifier::external_body]
pub fn local_now() -> (r: LocalTime) {
    let value = chrono::Local::now().fixed_offset();
    let fields = TimeFields {
        year: value.year(),
        month: value.month(),
        day: value.day(),
        hour: value.hour(),
        minute: value.minute(),
        second: value.second(),
        nanosecond: value.nanosecond(),
        utc_offset_seconds: value.offset().local_minus_utc(),
    };
    LocalTime { reading: ClockReading { value }, fields }
}

/// A moment formatted with a strftime format: chrono's
/// `DateTime::format(fmt)` written into a string, `None` when writing
/// fails.  The text depends on the moment's fields and the format alone;
/// chrono copies text outside specifiers as it stands, fails exactly on a
/// specifier it cannot parse or write (`strftime_ok`), and so gives a
/// format without `%` back unchanged.
#[verifier::external_body]
pub fn format_time(t: &LocalTime, fmt: &str) -> (r: Option<String>)
    ensures
        opt_view(r) == strftime_text(t.view(), fmt@),
        (r is Some) == strftime_ok(fmt@),
        has_no_percent(fmt@) ==> opt_view(r) == Some(fmt@),
{
    let mut result = String::new();
    match write!(result, "{}", t.reading.value.format(fmt)) {
        Ok(_) => Some(result),
        Err(_) => None,
    }
}

} // verus!
