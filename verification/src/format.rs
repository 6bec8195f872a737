//! Formatting of metric values as strings.

use vstd::prelude::*;
use crate::strings::{decimal, push_decimal, push_str};

verus! {

/// Ways of formatting a metric value.
///
/// The unit-scaled formatters (kibi, kilo, ...) and the automatic size
/// formatter print fractional numbers; the integer formatters are provided
/// here.
#[derive(Clone, Copy, Debug, PartialEq, Eq, Structural)]
pub enum Formatter {
    Identity,
    Kibi,
    Mebi,
    Gibi,
    Tebi,
    Kilo,
    Mega,
    Giga,
    Tera,
    Size,
    Seconds,
    HumanMilliseconds,
}

/// Decimal digits of a number below a thousand, padded with zeros to three.
pub open spec fn three_digits(n: nat) -> Seq<char> {
    if n < 10 { "00"@ + decimal(n) } else if n < 100 { "0"@ + decimal(n) } else { decimal(n) }
}

/// Seconds and a fraction of three digits for the milliseconds.
pub open spec fn spec_duration_seconds(millis: nat) -> Seq<char> {
    decimal(millis / 1000) + "."@ + three_digits(millis % 1000)
}

/// Human readable duration from milliseconds.
pub open spec fn spec_duration_human(millis: nat) -> Seq<char> {
    if millis < 1000 {
        decimal(millis) + "ms"@
    } else {
        let seconds = millis / 1000;
        let rem_millis = millis % 1000;
        if seconds < 60 {
            if rem_millis > 0 {
                decimal(seconds) + "s "@ + decimal(rem_millis) + "ms"@
            } else {
                decimal(seconds) + "s"@
            }
        } else {
            let minutes = seconds / 60;
            let rem_seconds = seconds % 60;
            if minutes < 60 {
                decimal(minutes) + "m "@ + decimal(rem_seconds) + "s"@
            } else {
                let hours = minutes / 60;
                let rem_minutes = minutes % 60;
                if hours < 24 {
                    decimal(hours) + "h "@ + decimal(rem_minutes) + "m "@ + decimal(rem_seconds) + "s"@
                } else {
                    decimal(hours) + "h "@ + decimal(rem_minutes) + "m"@
                }
            }
        }
    }
}

/// A duration given as hours, minutes, seconds and milliseconds is shown
/// from its largest unit: milliseconds alone under a second; seconds, and
/// the milliseconds if there are any, under a minute; minutes and seconds
/// under an hour; hours, minutes and seconds under a day; hours and minutes
/// from a day on.
pub proof fn law_duration_human_units(h: nat, m: nat, s: nat, ms: nat)
    requires
        m < 60,
        s < 60,
        ms < 1000,
    ensures
        spec_duration_human(((h * 60 + m) * 60 + s) * 1000 + ms) == if h == 0 && m == 0 && s == 0 {
            decimal(ms) + "ms"@
        } else if h == 0 && m == 0 {
            if ms > 0 { decimal(s) + "s "@ + decimal(ms) + "ms"@ } else { decimal(s) + "s"@ }
        } else if h == 0 {
            decimal(m) + "m "@ + decimal(s) + "s"@
        } else if h < 24 {
            decimal(h) + "h "@ + decimal(m) + "m "@ + decimal(s) + "s"@
        } else {
            decimal(h) + "h "@ + decimal(m) + "m"@
        },
{
    let minutes = h * 60 + m;
    let seconds = minutes * 60 + s;
    let millis = seconds * 1000 + ms;
    vstd::arithmetic::div_mod::lemma_fundamental_div_mod_converse(millis as int, 1000, seconds as int, ms as int);
    vstd::arithmetic::div_mod::lemma_fundamental_div_mod_converse(seconds as int, 60, minutes as int, s as int);
    vstd::arithmetic::div_mod::lemma_fundamental_div_mod_converse(minutes as int, 60, h as int, m as int);
}

/// A value printed unchanged is read back as the same value.
pub proof fn law_identity_parses_back(v: u64)
    ensures
        v <= usize::MAX ==> crate::strings::spec_parse_usize(decimal(v as nat)) == Some(v as usize),
        crate::strings::digits_value(decimal(v as nat)) == v,
{
    crate::strings::lemma_decimal_digits(v as nat);
    reveal_with_fuel(decimal, 2);
}

/// Value unchanged
pub fn identity(value: u64) -> (s: String)
    ensures
        s@ == decimal(value as nat),
{
    let mut s = String::new();
    push_decimal(&mut s, value);
    assert(Seq::<char>::empty() + decimal(value as nat) =~= decimal(value as nat));
    s
}

/// Number of seconds and fraction of milliseconds
pub fn duration_seconds(millis: u64) -> (s: String)
    ensures
        s@ == spec_duration_seconds(millis as nat),
{
    let seconds = millis / 1000;
    let remaining_millis = millis - seconds * 1000;
    let mut s = String::new();
    push_decimal(&mut s, seconds);
    push_str(&mut s, ".");
    if remaining_millis < 10 {
        push_str(&mut s, "00");
    } else if remaining_millis < 100 {
        push_str(&mut s, "0");
    }
    push_decimal(&mut s, remaining_millis);
    proof {
        reveal_strlit("00");
        reveal_strlit("0");
    }
    assert(s@ =~= spec_duration_seconds(millis as nat));
    s
}

/// Number of milliseconds formatted in hms.
pub fn duration_human(millis: u64) -> (s: String)
    ensures
        s@ == spec_duration_human(millis as nat),
{
    let mut s = String::new();
    if millis < 1000 {
        push_decimal(&mut s, millis);
        push_str(&mut s, "ms");
    } else {
        let seconds = millis / 1000;
        let remaining_millis = millis - seconds * 1000;
        if seconds < 60 {
            if remaining_millis > 0 {
                push_decimal(&mut s, seconds);
                push_str(&mut s, "s ");
                push_decimal(&mut s, remaining_millis);
                push_str(&mut s, "ms");
            } else {
                push_decimal(&mut s, seconds);
                push_str(&mut s, "s");
            }
        } else {
            let minutes = seconds / 60;
            let remaining_seconds = seconds - minutes * 60;
            if minutes < 60 {
                push_decimal(&mut s, minutes);
                push_str(&mut s, "m ");
                push_decimal(&mut s, remaining_seconds);
                push_str(&mut s, "s");
            } else {
                let hours = minutes / 60;
                let remaining_minutes = minutes - hours * 60;
                if hours < 24 {
                    push_decimal(&mut s, hours);
                    push_str(&mut s, "h ");
                    push_decimal(&mut s, remaining_minutes);
                    push_str(&mut s, "m ");
                    push_decimal(&mut s, remaining_seconds);
                    push_str(&mut s, "s");
                } else {
                    push_decimal(&mut s, hours);
                    push_str(&mut s, "h ");
                    push_decimal(&mut s, remaining_minutes);
                    push_str(&mut s, "m");
                }
            }
        }
    }
    assert(s@ =~= spec_duration_human(millis as nat));
    s
}

} // verus!
