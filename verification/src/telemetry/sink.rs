//! The parts of a report that are computed here: the properties every
//! report shares, its time stamp and the location of a panic.

use vstd::prelude::*;
use crate::telemetry::consent::{channel_name, Channel};
use crate::telemetry::event::{is_flag_prop, is_text_prop, PropValue};
use crate::text::{chars_of, decimal, push_decimal, push_zero_padded, string_of, zero_padded};

verus! {

/// The 400-year era, counted from 0000-03-01, that holds the day `days`
/// after 1970-01-01.
pub open spec fn era_of(days: nat) -> int {
    (days + 719_468) as int / 146_097
}

/// The day within its era of the day `days` after 1970-01-01.
pub open spec fn day_of_era(days: nat) -> int {
    (days + 719_468) as int % 146_097
}

/// The year within its era, counted from March, that holds day `doe` of
/// the era.
pub open spec fn year_of_era(doe: int) -> int {
    (doe - doe / 1_460 + doe / 36_524 - doe / 146_096) / 365
}

/// The day of the era on which year `y` of the era (from March) starts.
pub open spec fn year_start(y: int) -> int {
    365 * y + y / 4 - y / 100
}

/// The day within its year (from March 1) of day `doe` of the era.
pub open spec fn day_of_year(doe: int) -> int {
    doe - year_start(year_of_era(doe))
}

/// The month, counted from March as 0, that holds day `doy` of the year.
pub open spec fn shifted_month(doy: int) -> int {
    (5 * doy + 2) / 153
}

/// The day of the month of day `doy` of the year (from March 1).
pub open spec fn day_of_month(doy: int) -> int {
    doy - (153 * shifted_month(doy) + 2) / 5 + 1
}

/// The calendar month of a month counted from March as 0.
pub open spec fn civil_month(mp: int) -> int {
    if mp < 10 {
        mp + 3
    } else {
        mp - 9
    }
}

/// The proleptic Gregorian date `(year, month, day)` of the day `days`
/// after 1970-01-01, by Howard Hinnant's days-to-civil algorithm: counted
/// in 400-year eras from 0000-03-01, so that leap days fall at the end of a
/// year and need no special case.
pub open spec fn civil_date(days: nat) -> (nat, nat, nat) {
    let doe = day_of_era(days);
    let doy = day_of_year(doe);
    let month = civil_month(shifted_month(doy));
    let year = year_of_era(doe) + era_of(days) * 400 + if month <= 2 {
        1int
    } else {
        0int
    };
    (year as nat, month as nat, day_of_month(doy) as nat)
}

/// `at` (unix seconds) as `YYYY-MM-DDTHH:MM:SSZ`.
pub open spec fn iso8601_text(at: nat) -> Seq<char> {
    let date = civil_date(at / 86_400);
    let seconds = at % 86_400;
    zero_padded(date.0, 4) + seq!['-'] + zero_padded(date.1, 2) + seq!['-'] + zero_padded(date.2, 2)
        + seq!['T'] + zero_padded(seconds / 3_600, 2) + seq![':'] + zero_padded(
        seconds % 3_600 / 60,
        2,
    ) + seq![':'] + zero_padded(seconds % 60, 2) + seq!['Z']
}

/// The date of the day `days` after 1970-01-01.
pub fn civil_from_days(days: u64) -> (date: (u64, u64, u64))
    ensures
        (date.0 as nat, date.1 as nat, date.2 as nat) == civil_date(days as nat),
        1 <= date.1 <= 12,
        1 <= date.2 <= 31,
{
    let z: u128 = days as u128 + 719_468;
    let era = z / 146_097;
    let day_of_era = z % 146_097;
    assert(day_of_era / 1_460 <= day_of_era) by (nonlinear_arith)
        requires
            day_of_era >= 0,
    ;
    let year_of_era = (day_of_era - day_of_era / 1_460 + day_of_era / 36_524 - day_of_era
        / 146_096) / 365;
    assert(year_of_era <= 400) by (nonlinear_arith)
        requires
            day_of_era < 146_097,
            year_of_era == (day_of_era - day_of_era / 1_460 + day_of_era / 36_524 - day_of_era
                / 146_096) / 365,
    ;
    assert(365 * year_of_era + year_of_era / 4 - year_of_era / 100 <= day_of_era) by (
    nonlinear_arith)
        requires
            day_of_era < 146_097,
            year_of_era == (day_of_era - day_of_era / 1_460 + day_of_era / 36_524 - day_of_era
                / 146_096) / 365,
    ;
    let day_of_year = day_of_era - (365 * year_of_era + year_of_era / 4 - year_of_era / 100);
    assert(day_of_year <= 365) by (nonlinear_arith)
        requires
            day_of_era < 146_097,
            year_of_era == (day_of_era - day_of_era / 1_460 + day_of_era / 36_524 - day_of_era
                / 146_096) / 365,
            day_of_year == day_of_era - (365 * year_of_era + year_of_era / 4 - year_of_era
                / 100),
    ;
    let shifted_month = (5 * day_of_year + 2) / 153;
    assert(shifted_month <= 11);
    assert((153 * shifted_month + 2) / 5 <= day_of_year) by (nonlinear_arith)
        requires
            shifted_month == (5 * day_of_year + 2) / 153,
    ;
    let day = day_of_year - (153 * shifted_month + 2) / 5 + 1;
    assert(day <= 31) by (nonlinear_arith)
        requires
            shifted_month == (5 * day_of_year + 2) / 153,
            day == day_of_year - (153 * shifted_month + 2) / 5 + 1,
            day_of_year <= 365,
    ;
    let month = if shifted_month < 10 {
        shifted_month + 3
    } else {
        shifted_month - 9
    };
    assert(era <= 0x1_0000_0000_0000);
    let year = year_of_era + era * 400 + if month <= 2 {
        1
    } else {
        0
    };
    (year as u64, month as u64, day as u64)
}

/// `at` (unix seconds) as `YYYY-MM-DDTHH:MM:SSZ`. The reporting service
/// rejects a batch whose time stamp is a bare number, so this is not
/// cosmetic.
pub fn iso8601(at: u64) -> (s: String)
    ensures
        s@ == iso8601_text(at as nat),
{
    let days = at / 86_400;
    let seconds = at % 86_400;
    let (year, month, day) = civil_from_days(days);
    let mut out: Vec<char> = Vec::new();
    push_zero_padded(&mut out, year, 4);
    out.push('-');
    push_zero_padded(&mut out, month, 2);
    out.push('-');
    push_zero_padded(&mut out, day, 2);
    out.push('T');
    push_zero_padded(&mut out, seconds / 3_600, 2);
    out.push(':');
    push_zero_padded(&mut out, seconds % 3_600 / 60, 2);
    out.push(':');
    push_zero_padded(&mut out, seconds % 60, 2);
    out.push('Z');
    proof {
        assert(out@ =~= iso8601_text(at as nat));
    }
    string_of(out.as_slice())
}

/// The file name of a source path: what follows its last `/` or `\`.
pub open spec fn source_file_name(file: Seq<char>) -> Seq<char>
    decreases file.len(),
{
    if file.len() == 0 {
        file
    } else if file.last() == '/' || file.last() == '\\' {
        Seq::empty()
    } else {
        source_file_name(file.drop_last()).push(file.last())
    }
}

/// `file:line` with the directories dropped, so a build path never ships.
pub open spec fn panic_location_text(file: Seq<char>, line: nat) -> Seq<char> {
    source_file_name(file) + seq![':'] + decimal(line)
}

/// `file:line` with the directories dropped, so a build path never ships.
pub fn panic_location(file: &str, line: u32) -> (s: String)
    ensures
        s@ == panic_location_text(file@, line as nat),
{
    let chars = chars_of(file);
    let mut start: usize = chars.len();
    assert(chars@.take(start as int) =~= chars@);
    assert(source_file_name(chars@) + chars@.skip(start as int) =~= source_file_name(chars@));
    while start > 0 && chars[start - 1] != '/' && chars[start - 1] != '\\'
        invariant
            start <= chars@.len(),
            source_file_name(chars@) == source_file_name(chars@.take(start as int)) + chars@.skip(
                start as int,
            ),
        decreases start,
    {
        proof {
            let t = chars@.take(start as int);
            assert(t.drop_last() =~= chars@.take(start - 1));
            assert(t.last() == chars@[start - 1]);
            assert(chars@.skip(start - 1) =~= seq![chars@[start - 1]] + chars@.skip(start as int));
            assert(source_file_name(t) == source_file_name(t.drop_last()).push(t.last()));
            assert(source_file_name(t.drop_last()).push(t.last()) + chars@.skip(start as int)
                =~= source_file_name(t.drop_last()) + chars@.skip(start - 1));
        }
        start -= 1;
    }
    proof {
        let t = chars@.take(start as int);
        if start > 0 {
            assert(t.last() == chars@[start - 1]);
        }
        assert(source_file_name(t) =~= Seq::<char>::empty());
        assert(source_file_name(chars@) =~= chars@.skip(start as int));
    }
    let mut out = crate::text::slice_chars(chars.as_slice(), start, chars.len());
    out.push(':');
    push_decimal(&mut out, line as u64);
    proof {
        assert(out@ =~= panic_location_text(file@, line as nat));
    }
    string_of(out.as_slice())
}

/// Whether `year` has a February 29 in the proleptic Gregorian calendar.
pub open spec fn leap_year(year: int) -> bool {
    year % 4 == 0 && (year % 100 != 0 || year % 400 == 0)
}

/// The last day, counted from March 1, of year `y` of an era: the year
/// ends with the February of the calendar year after `y`.
spec fn last_day_of_year(y: int) -> int {
    if leap_year(y + 1) {
        365
    } else {
        364
    }
}

/// The length of a month counted from March as 0; February as in a leap
/// year.
spec fn shifted_month_length(mp: int) -> int {
    if mp == 11 {
        29
    } else if mp == 1 || mp == 3 || mp == 6 || mp == 8 {
        30
    } else {
        31
    }
}

proof fn lemma_next_day_of_era(doe: int)
    requires
        0 <= doe < 146_096,
    ensures
        0 <= year_of_era(doe) <= 399,
        0 <= day_of_year(doe),
        ({
            let y1 = year_of_era(doe);
            let y2 = year_of_era(doe + 1);
            let d1 = day_of_year(doe);
            let d2 = day_of_year(doe + 1);
            ||| y2 == y1 && d2 == d1 + 1 && d2 <= last_day_of_year(y1)
            ||| y2 == y1 + 1 && d2 == 0 && d1 == last_day_of_year(y1)
        }),
{
    assert({
        let y1 = year_of_era(doe);
        let y2 = year_of_era(doe + 1);
        let d1 = doe - year_start(y1);
        let d2 = doe + 1 - year_start(y2);
        &&& 0 <= y1 <= 399
        &&& 0 <= d1
        &&& {
            ||| y2 == y1 && d2 == d1 + 1 && d2 <= if leap_year(y1 + 1) { 365int } else { 364int }
            ||| y2 == y1 + 1 && d2 == 0 && d1 == if leap_year(y1 + 1) { 365int } else { 364int }
        }
    }) by (nonlinear_arith)
        requires
            0 <= doe < 146_096,
    ;
}

proof fn lemma_next_day_of_year(doy: int)
    requires
        0 <= doy < 365,
    ensures
        0 <= shifted_month(doy) <= 11,
        1 <= day_of_month(doy),
        shifted_month(doy) == 11 ==> day_of_month(doy) == doy - 336,
        ({
            let m1 = shifted_month(doy);
            let m2 = shifted_month(doy + 1);
            let d1 = day_of_month(doy);
            let d2 = day_of_month(doy + 1);
            ||| m2 == m1 && d2 == d1 + 1 && d1 < shifted_month_length(m1)
            ||| m2 == m1 + 1 && m1 <= 10 && d2 == 1 && d1 == shifted_month_length(m1)
        }),
{
    assert({
        let m1 = (5 * doy + 2) / 153;
        let m2 = (5 * (doy + 1) + 2) / 153;
        let d1 = doy - (153 * m1 + 2) / 5 + 1;
        let d2 = doy + 1 - (153 * m2 + 2) / 5 + 1;
        let len = if m1 == 11 {
            29int
        } else if m1 == 1 || m1 == 3 || m1 == 6 || m1 == 8 {
            30int
        } else {
            31int
        };
        &&& 0 <= m1 <= 11
        &&& 1 <= d1
        &&& m1 == 11 ==> d1 == doy - 336
        &&& {
            ||| m2 == m1 && d2 == d1 + 1 && d1 < len
            ||| m2 == m1 + 1 && m1 <= 10 && d2 == 1 && d1 == len
        }
    }) by (nonlinear_arith)
        requires
            0 <= doy < 365,
    ;
}

proof fn lemma_next_day_of_epoch(days: nat)
    ensures
        era_of(days) >= 0,
        0 <= day_of_era(days) < 146_097,
        day_of_era(days) < 146_096 ==> day_of_era(days + 1) == day_of_era(days) + 1 && era_of(
            days + 1,
        ) == era_of(days),
        day_of_era(days) == 146_096 ==> day_of_era(days + 1) == 0 && era_of(days + 1) == era_of(
            days,
        ) + 1,
{
    assert({
        let z = days + 719_468;
        &&& z / 146_097 >= 0
        &&& 0 <= z % 146_097 < 146_097
        &&& z % 146_097 < 146_096 ==> (z + 1) % 146_097 == z % 146_097 + 1 && (z + 1) / 146_097
            == z / 146_097
        &&& z % 146_097 == 146_096 ==> (z + 1) % 146_097 == 0 && (z + 1) / 146_097 == z / 146_097
            + 1
    }) by (nonlinear_arith);
}

proof fn lemma_leap_every_400_years(year: int, era: int)
    ensures
        leap_year(year + 400 * era) == leap_year(year),
{
    assert(leap_year(year + 400 * era) == leap_year(year)) by (nonlinear_arith);
}

/// The ends of a year and of an era, and the first day of both.
proof fn lemma_year_ends()
    ensures
        shifted_month(364) == 11 && day_of_month(364) == 28,
        shifted_month(365) == 11 && day_of_month(365) == 29,
        shifted_month(0) == 0 && day_of_month(0) == 1,
        year_of_era(146_096) == 399 && day_of_year(146_096) == 365,
        year_of_era(0) == 0 && day_of_year(0) == 0,
        civil_date(0) == (1970nat, 1nat, 1nat),
{
    assert(shifted_month(364) == 11 && day_of_month(364) == 28) by (nonlinear_arith);
    assert(shifted_month(365) == 11 && day_of_month(365) == 29) by (nonlinear_arith);
    assert(shifted_month(0) == 0 && day_of_month(0) == 1) by (nonlinear_arith);
    assert(year_of_era(146_096) == 399 && day_of_year(146_096) == 365) by (nonlinear_arith);
    assert(year_of_era(0) == 0 && day_of_year(0) == 0) by (nonlinear_arith);
    assert(era_of(0) == 4 && day_of_era(0) == 135_080) by (nonlinear_arith);
    assert(year_of_era(135_080) == 369 && day_of_year(135_080) == 306) by (nonlinear_arith);
    assert(shifted_month(306) == 10 && day_of_month(306) == 1) by (nonlinear_arith);
}

/// The number of days of `month` in `year`.
pub open spec fn month_length(year: nat, month: nat) -> nat {
    if month == 2 {
        if leap_year(year as int) {
            29
        } else {
            28
        }
    } else if month == 4 || month == 6 || month == 9 || month == 11 {
        30
    } else {
        31
    }
}

/// The calendar day after `date`.
pub open spec fn next_date(date: (nat, nat, nat)) -> (nat, nat, nat) {
    if date.2 < month_length(date.0, date.1) {
        (date.0, date.1, date.2 + 1)
    } else if date.1 < 12 {
        (date.0, date.1 + 1, 1)
    } else {
        (date.0 + 1, 1, 1)
    }
}

/// The dates follow the proleptic Gregorian calendar: day 0 is 1970-01-01,
/// and the date of each next day is the calendar day after the date
/// before it.
pub proof fn law_dates_follow_the_calendar(days: nat)
    ensures
        civil_date(0) == (1970nat, 1nat, 1nat),
        civil_date(days + 1) == next_date(civil_date(days)),
{
    lemma_year_ends();
    lemma_next_day_of_epoch(days);
    let e = era_of(days);
    let o = day_of_era(days);
    if o < 146_096 {
        lemma_next_day_of_era(o);
        let y1 = year_of_era(o);
        let d1 = day_of_year(o);
        lemma_leap_every_400_years(y1 + 1, e);
        if year_of_era(o + 1) == y1 {
            lemma_next_day_of_year(d1);
        } else if d1 == 364 {
            lemma_next_day_of_year(d1);
        }
    } else {
        lemma_leap_every_400_years(400, e);
    }
}

/// The properties every report of a launch shares: the build's `version`,
/// `os` and `arch`, the install channel, and the two that keep the
/// reporting service from locating the sender: `$ip` set to nothing, so
/// the sender's address is not stored, and `$geoip_disable` set, so it is
/// not turned into a place.
pub fn base_props(channel: Channel, version: &str, os: &str, arch: &str) -> (r: Vec<
    (&'static str, PropValue),
>)
    ensures
        r@.len() == 6,
        is_text_prop(r@[0], "version"@, version@),
        is_text_prop(r@[1], "os"@, os@),
        is_text_prop(r@[2], "arch"@, arch@),
        is_text_prop(r@[3], "channel"@, channel_name(channel)),
        r@[4].0@ == "$ip"@ && r@[4].1 == PropValue::Null,
        is_flag_prop(r@[5], "$geoip_disable"@, true),
{
    let mut r: Vec<(&'static str, PropValue)> = Vec::new();
    r.push(("version", PropValue::Text(version.to_owned())));
    r.push(("os", PropValue::Text(os.to_owned())));
    r.push(("arch", PropValue::Text(arch.to_owned())));
    r.push(("channel", PropValue::Text(channel.name().to_owned())));
    r.push(("$ip", PropValue::Null));
    r.push(("$geoip_disable", PropValue::Flag(true)));
    r
}

/// Whether the date `a` comes before the date `b` in the calendar: the
/// earlier year, then month, then day. The same order puts one time of
/// day, as hours, minutes and seconds, before a later one.
pub open spec fn date_before(a: (nat, nat, nat), b: (nat, nat, nat)) -> bool {
    a.0 < b.0 || (a.0 == b.0 && (a.1 < b.1 || (a.1 == b.1 && a.2 < b.2)))
}

/// Later days have later dates: the dates of two days are in the order of
/// the days, so no two days share a date.
pub proof fn law_later_days_have_later_dates(a: nat, b: nat)
    requires
        a < b,
    ensures
        date_before(civil_date(a), civil_date(b)),
    decreases b - a,
{
    let prev = (b - 1) as nat;
    law_dates_follow_the_calendar(prev);
    assert(prev + 1 == b);
    if a < prev {
        law_later_days_have_later_dates(a, prev);
    }
}

/// Whether every character of `s` is a decimal digit.
pub open spec fn all_digits(s: Seq<char>) -> bool {
    forall|i: int| 0 <= i < s.len() ==> '0' <= #[trigger] s[i] && s[i] <= '9'
}

/// The number the digits `s` write.
pub open spec fn digits_value(s: Seq<char>) -> int
    decreases s.len(),
{
    if s.len() == 0 {
        0
    } else {
        digits_value(s.drop_last()) * 10 + (s.last() as int - 48)
    }
}

proof fn lemma_digit_char(d: int)
    requires
        0 <= d <= 9,
    ensures
        crate::text::digit_char(d) as int == d + 48,
{
}

proof fn lemma_decimal_digits(n: nat)
    ensures
        all_digits(decimal(n)),
        digits_value(decimal(n)) == n,
    decreases n,
{
    if n < 10 {
        assert(decimal(n) =~= seq![crate::text::digit_char(n as int)]);
        assert(decimal(n).drop_last() =~= Seq::<char>::empty());
        assert(digits_value(decimal(n).drop_last()) == 0);
        lemma_digit_char(n as int);
    } else {
        lemma_decimal_digits(n / 10);
        let d = decimal(n);
        assert(d.drop_last() =~= decimal(n / 10));
        assert(d.last() == crate::text::digit_char((n % 10) as int));
        lemma_digit_char((n % 10) as int);
        assert(digits_value(d) == digits_value(decimal(n / 10)) * 10 + (n % 10));
        assert(n == (n / 10) * 10 + n % 10);
    }
}

proof fn lemma_zeros_then_digits(k: nat, s: Seq<char>)
    requires
        all_digits(s),
    ensures
        all_digits(Seq::new(k, |i: int| '0') + s),
        digits_value(Seq::new(k, |i: int| '0') + s) == digits_value(s),
    decreases s.len(),
{
    let z = Seq::new(k, |i: int| '0');
    if s.len() == 0 {
        assert(z + s =~= z);
        lemma_zeros_value(k);
    } else {
        lemma_zeros_then_digits(k, s.drop_last());
        assert((z + s).drop_last() =~= z + s.drop_last());
    }
}

proof fn lemma_zeros_value(k: nat)
    ensures
        digits_value(Seq::new(k, |i: int| '0')) == 0,
    decreases k,
{
    if k > 0 {
        assert(Seq::new(k, |i: int| '0').drop_last() =~= Seq::new((k - 1) as nat, |i: int| '0'));
        lemma_zeros_value((k - 1) as nat);
    }
}

/// `n` zero-padded to `width` digits writes `n`, in exactly `width`
/// digits when it fits.
proof fn lemma_padded(n: nat, width: nat)
    requires
        width == 2 || width == 4,
        n < if width == 2 {
            100nat
        } else {
            10000nat
        },
    ensures
        all_digits(zero_padded(n, width)),
        digits_value(zero_padded(n, width)) == n,
        zero_padded(n, width).len() == width,
{
    lemma_decimal_digits(n);
    crate::text::lemma_decimal_len(n);
    let d = decimal(n);
    if d.len() < width {
        lemma_zeros_then_digits((width - d.len()) as nat, d);
    }
}

/// Whether `s` comes before `t` in dictionary order.
pub open spec fn text_before(s: Seq<char>, t: Seq<char>) -> bool {
    exists|k: int| 0 <= k < s.len() && k < t.len() && s.take(k) == t.take(k) && s[k] < t[k]
}

proof fn lemma_digits_bound(s: Seq<char>)
    requires
        all_digits(s),
    ensures
        0 <= digits_value(s),
    decreases s.len(),
{
    if s.len() > 0 {
        lemma_digits_bound(s.drop_last());
    }
}

/// Digit strings of one length are in the order of the numbers they write.
proof fn lemma_digits_order(s: Seq<char>, t: Seq<char>)
    requires
        all_digits(s),
        all_digits(t),
        s.len() == t.len(),
        digits_value(s) <= digits_value(t),
    ensures
        digits_value(s) == digits_value(t) ==> s == t,
        digits_value(s) < digits_value(t) ==> text_before(s, t),
    decreases s.len(),
{
    if s.len() > 0 {
        let (a, b) = (s.drop_last(), t.drop_last());
        lemma_digits_bound(a);
        lemma_digits_bound(b);
        let (x, y) = (s.last() as int - 48, t.last() as int - 48);
        assert(0 <= x <= 9 && 0 <= y <= 9);
        assert(digits_value(a) <= digits_value(b)) by (nonlinear_arith)
            requires
                digits_value(a) * 10 + x <= digits_value(b) * 10 + y,
                0 <= x <= 9,
                0 <= y <= 9,
        ;
        lemma_digits_order(a, b);
        if digits_value(a) == digits_value(b) {
            assert(a == b);
            if x == y {
                assert(s.last() == t.last());
                assert(s =~= a.push(s.last()));
                assert(t =~= b.push(t.last()));
            } else {
                let k = s.len() - 1;
                assert(s.take(k) =~= a && t.take(k) =~= b);
                assert(s[k] < t[k]);
            }
        } else {
            let k = choose|k: int| 0 <= k < a.len() && k < b.len() && a.take(k) == b.take(k) && a[k] < b[k];
            assert(s.take(k) =~= a.take(k) && t.take(k) =~= b.take(k));
        }
    } else {
        assert(s =~= t);
    }
}


proof fn lemma_before_then(p: Seq<char>, q: Seq<char>, r: Seq<char>, u: Seq<char>)
    requires
        text_before(p, q),
        p.len() == q.len(),
    ensures
        text_before(p + r, q + u),
{
    let k = choose|k: int| 0 <= k < p.len() && k < q.len() && p.take(k) == q.take(k) && p[k] < q[k];
    assert((p + r).take(k) =~= p.take(k));
    assert((q + u).take(k) =~= q.take(k));
    assert((p + r)[k] == p[k] && (q + u)[k] == q[k]);
    assert(0 <= k < (p + r).len() && k < (q + u).len() && (p + r).take(k) == (q + u).take(k) && (p
        + r)[k] < (q + u)[k]);
}

proof fn lemma_same_then(p: Seq<char>, r: Seq<char>, u: Seq<char>)
    requires
        text_before(r, u),
    ensures
        text_before(p + r, p + u),
{
    let k = choose|k: int| 0 <= k < r.len() && k < u.len() && r.take(k) == u.take(k) && r[k] < u[k];
    let j = p.len() + k;
    assert((p + r).take(j) =~= p + r.take(k));
    assert((p + u).take(j) =~= p + u.take(k));
    assert((p + r)[j] == r[k] && (p + u)[j] == u[k]);
    assert(0 <= j < (p + r).len() && j < (p + u).len() && (p + r).take(j) == (p + u).take(j) && (p
        + r)[j] < (p + u)[j]);
}

/// Three zero-padded numbers, the first `width` digits wide and the other
/// two 2 digits wide, with `c1` and `c2` between them.
spec fn three_fields(f: (nat, nat, nat), width: nat, c1: char, c2: char) -> Seq<char> {
    zero_padded(f.0, width) + seq![c1] + zero_padded(f.1, 2) + seq![c2] + zero_padded(f.2, 2)
}

spec fn fields_fit(f: (nat, nat, nat), width: nat) -> bool {
    &&& f.0 < if width == 2 {
        100nat
    } else {
        10000nat
    }
    &&& f.1 < 100
    &&& f.2 < 100
}

proof fn lemma_three_fields_order(f: (nat, nat, nat), g: (nat, nat, nat), width: nat, c1: char, c2: char)
    requires
        width == 2 || width == 4,
        fields_fit(f, width),
        fields_fit(g, width),
        date_before(f, g),
    ensures
        three_fields(f, width, c1, c2).len() == width + 6,
        three_fields(g, width, c1, c2).len() == width + 6,
        text_before(three_fields(f, width, c1, c2), three_fields(g, width, c1, c2)),
{
    lemma_padded(f.0, width);
    lemma_padded(g.0, width);
    lemma_padded(f.1, 2);
    lemma_padded(g.1, 2);
    lemma_padded(f.2, 2);
    lemma_padded(g.2, 2);
    let (a0, a1, a2) = (zero_padded(f.0, width), zero_padded(f.1, 2), zero_padded(f.2, 2));
    let (b0, b1, b2) = (zero_padded(g.0, width), zero_padded(g.1, 2), zero_padded(g.2, 2));
    let x = three_fields(f, width, c1, c2);
    let y = three_fields(g, width, c1, c2);
    assert(x =~= a0 + (seq![c1] + a1 + seq![c2] + a2));
    assert(y =~= b0 + (seq![c1] + b1 + seq![c2] + b2));
    if f.0 < g.0 {
        lemma_digits_order(a0, b0);
        lemma_before_then(a0, b0, seq![c1] + a1 + seq![c2] + a2, seq![c1] + b1 + seq![c2] + b2);
    } else {
        lemma_digits_order(a0, b0);
        let p = a0 + seq![c1];
        assert(x =~= p + (a1 + (seq![c2] + a2)));
        assert(y =~= p + (b1 + (seq![c2] + b2)));
        if f.1 < g.1 {
            lemma_digits_order(a1, b1);
            lemma_before_then(a1, b1, seq![c2] + a2, seq![c2] + b2);
            lemma_same_then(p, a1 + (seq![c2] + a2), b1 + (seq![c2] + b2));
        } else {
            lemma_digits_order(a1, b1);
            lemma_digits_order(a2, b2);
            let q = p + a1 + seq![c2];
            assert(x =~= q + a2);
            assert(y =~= q + b2);
            lemma_same_then(q, a2, b2);
        }
    }
}

/// Every date is a valid calendar date: a month from 1 to 12 and a day
/// within that month.
proof fn lemma_valid_date(days: nat)
    ensures
        1 <= civil_date(days).1 <= 12,
        1 <= civil_date(days).2 <= month_length(civil_date(days).0, civil_date(days).1),
        month_length(civil_date(days).0, civil_date(days).1) <= 31,
    decreases days,
{
    if days == 0 {
        law_dates_follow_the_calendar(0);
    } else {
        lemma_valid_date((days - 1) as nat);
        law_dates_follow_the_calendar((days - 1) as nat);
    }
}

/// Every day before 10000-01-01 falls in a year of at most four digits.
proof fn lemma_four_digit_year(days: nat)
    requires
        days < 2_932_897,
    ensures
        civil_date(days).0 <= 9999,
{
    assert(era_of(2_932_896) == 24 && day_of_era(2_932_896) == 146_036) by (nonlinear_arith);
    assert(year_of_era(146_036) == 399 && day_of_year(146_036) == 305) by (nonlinear_arith);
    assert(shifted_month(305) == 9 && day_of_month(305) == 31) by (nonlinear_arith);
    assert(civil_date(2_932_896) == (9999nat, 12nat, 31nat));
    if days < 2_932_896 {
        law_later_days_have_later_dates(days, 2_932_896);
    }
}

/// The hours, minutes and seconds of the `seconds`-th second of a day.
spec fn clock_fields(seconds: nat) -> (nat, nat, nat) {
    (seconds / 3_600, seconds % 3_600 / 60, seconds % 60)
}

proof fn lemma_clock_order(s: nat, t: nat)
    requires
        s < t < 86_400,
    ensures
        fields_fit(clock_fields(s), 2),
        fields_fit(clock_fields(t), 2),
        date_before(clock_fields(s), clock_fields(t)),
{
    assert(s / 3_600 < 24 && s % 3_600 / 60 < 60 && s % 60 < 60) by (nonlinear_arith)
        requires
            s < 86_400,
    ;
    assert(t / 3_600 < 24 && t % 3_600 / 60 < 60 && t % 60 < 60) by (nonlinear_arith)
        requires
            t < 86_400,
    ;
    assert(s / 3_600 < t / 3_600 || (s / 3_600 == t / 3_600 && (s % 3_600 / 60 < t % 3_600 / 60
        || (s % 3_600 / 60 == t % 3_600 / 60 && s % 60 < t % 60)))) by (nonlinear_arith)
        requires
            s < t,
    ;
}

/// A stamp as its date fields, then `T`, its clock fields and `Z`.
proof fn lemma_stamp_parts(at: nat)
    ensures
        iso8601_text(at) == three_fields(civil_date(at / 86_400), 4, '-', '-') + (seq!['T']
            + three_fields(clock_fields(at % 86_400), 2, ':', ':') + seq!['Z']),
{
    let date = civil_date(at / 86_400);
    let seconds = at % 86_400;
    assert(iso8601_text(at) =~= three_fields(date, 4, '-', '-') + (seq!['T'] + three_fields(
        clock_fields(seconds),
        2,
        ':',
        ':',
    ) + seq!['Z']));
}

/// Time stamps sort as the times they stand for: up to the end of the year
/// 9999, a later time has a stamp that comes later in dictionary order, so
/// no two times share a stamp.
pub proof fn law_later_times_have_later_stamps(a: nat, b: nat)
    requires
        a < b < 253_402_300_800,
    ensures
        text_before(iso8601_text(a), iso8601_text(b)),
        iso8601_text(a) != iso8601_text(b),
{
    let (da, db) = (a / 86_400, b / 86_400);
    let (sa, sb) = (a % 86_400, b % 86_400);
    assert(da < db || (da == db && sa < sb)) by (nonlinear_arith)
        requires
            a < b,
            da == a / 86_400,
            db == b / 86_400,
            sa == a % 86_400,
            sb == b % 86_400,
    ;
    assert(da <= db < 2_932_897 && sa < 86_400 && sb < 86_400) by (nonlinear_arith)
        requires
            a < b < 253_402_300_800,
            da == a / 86_400,
            db == b / 86_400,
            sa == a % 86_400,
            sb == b % 86_400,
    ;
    lemma_stamp_parts(a);
    lemma_stamp_parts(b);
    lemma_stamps_of_parts(da, db, sa, sb);
    let x = iso8601_text(a);
    let y = iso8601_text(b);
    let k = choose|k: int| 0 <= k < x.len() && k < y.len() && x.take(k) == y.take(k) && x[k] < y[k];
    assert(x[k] != y[k]);
}

proof fn lemma_stamps_of_parts(da: nat, db: nat, sa: nat, sb: nat)
    requires
        da < db || (da == db && sa < sb),
        db < 2_932_897,
        sa < 86_400,
        sb < 86_400,
    ensures
        text_before(
            three_fields(civil_date(da), 4, '-', '-') + (seq!['T'] + three_fields(clock_fields(sa), 2, ':', ':') + seq!['Z']),
            three_fields(civil_date(db), 4, '-', '-') + (seq!['T'] + three_fields(clock_fields(sb), 2, ':', ':') + seq!['Z']),
        ),
{
    lemma_four_digit_year(da);
    lemma_four_digit_year(db);
    lemma_valid_date(da);
    lemma_valid_date(db);
    let (xa, xb) = (civil_date(da), civil_date(db));
    let (ta, tb) = (clock_fields(sa), clock_fields(sb));
    let (fa, fb) = (three_fields(xa, 4, '-', '-'), three_fields(xb, 4, '-', '-'));
    let (ca, cb) = (three_fields(ta, 2, ':', ':'), three_fields(tb, 2, ':', ':'));
    if da < db {
        law_later_days_have_later_dates(da, db);
        lemma_three_fields_order(xa, xb, 4, '-', '-');
        lemma_before_then(fa, fb, seq!['T'] + ca + seq!['Z'], seq!['T'] + cb + seq!['Z']);
    } else {
        lemma_clock_order(sa, sb);
        lemma_three_fields_order(ta, tb, 2, ':', ':');
        lemma_before_then(ca, cb, seq!['Z'], seq!['Z']);
        lemma_same_then(seq!['T'], ca + seq!['Z'], cb + seq!['Z']);
        assert(seq!['T'] + ca + seq!['Z'] =~= seq!['T'] + (ca + seq!['Z']));
        assert(seq!['T'] + cb + seq!['Z'] =~= seq!['T'] + (cb + seq!['Z']));
        lemma_same_then(fa, seq!['T'] + ca + seq!['Z'], seq!['T'] + cb + seq!['Z']);
    }
}

/// Whether `s` has the shape `YYYY-MM-DDTHH:MM:SSZ`: 20 characters, the
/// separators in their places and digits in between.
pub open spec fn stamp_shape(s: Seq<char>) -> bool {
    &&& s.len() == 20
    &&& s[4] == '-' && s[7] == '-' && s[10] == 'T'
    &&& s[13] == ':' && s[16] == ':' && s[19] == 'Z'
    &&& all_digits(s.subrange(0, 4)) && all_digits(s.subrange(5, 7)) && all_digits(s.subrange(8, 10))
    &&& all_digits(s.subrange(11, 13)) && all_digits(s.subrange(14, 16)) && all_digits(
        s.subrange(17, 19),
    )
}

/// Up to the end of the year 9999 a stamp is `YYYY-MM-DDTHH:MM:SSZ`, 20
/// characters, and names the moment `at`: its date is a valid calendar
/// date, the date of day `at / 86_400` after 1970-01-01, and its time of
/// day adds the rest of the `at` seconds.
pub proof fn law_stamp_shape(at: nat)
    requires
        at < 253_402_300_800,
    ensures
        ({
            let s = iso8601_text(at);
            let year = digits_value(s.subrange(0, 4));
            let month = digits_value(s.subrange(5, 7));
            let day = digits_value(s.subrange(8, 10));
            let hour = digits_value(s.subrange(11, 13));
            let minute = digits_value(s.subrange(14, 16));
            let second = digits_value(s.subrange(17, 19));
            &&& stamp_shape(s)
            &&& civil_date(at / 86_400) == (year as nat, month as nat, day as nat)
            &&& 1 <= month <= 12
            &&& 1 <= day <= month_length(year as nat, month as nat)
            &&& 0 <= hour < 24 && 0 <= minute < 60 && 0 <= second < 60
            &&& at == 86_400 * (at / 86_400) + 3_600 * hour + 60 * minute + second
        }),
{
    let days = at / 86_400;
    let secs = at % 86_400;
    assert(days < 2_932_897 && secs < 86_400 && at == 86_400 * days + secs) by (nonlinear_arith)
        requires
            at < 253_402_300_800,
            days == at / 86_400,
            secs == at % 86_400,
    ;
    let date = civil_date(days);
    let clock = clock_fields(secs);
    assert(clock.0 < 24 && clock.1 < 60 && clock.2 < 60 && secs == 3_600 * clock.0 + 60 * clock.1
        + clock.2) by (nonlinear_arith)
        requires
            secs < 86_400,
            clock == (secs / 3_600, secs % 3_600 / 60, secs % 60),
    ;
    lemma_four_digit_year(days);
    lemma_valid_date(days);
    lemma_stamp_parts(at);
    lemma_padded(date.0, 4);
    lemma_padded(date.1, 2);
    lemma_padded(date.2, 2);
    lemma_padded(clock.0, 2);
    lemma_padded(clock.1, 2);
    lemma_padded(clock.2, 2);
    let s = iso8601_text(at);
    assert(s =~= zero_padded(date.0, 4) + seq!['-'] + zero_padded(date.1, 2) + seq!['-']
        + zero_padded(date.2, 2) + seq!['T'] + zero_padded(clock.0, 2) + seq![':'] + zero_padded(
        clock.1,
        2,
    ) + seq![':'] + zero_padded(clock.2, 2) + seq!['Z']);
    assert(s.subrange(0, 4) =~= zero_padded(date.0, 4));
    assert(s.subrange(5, 7) =~= zero_padded(date.1, 2));
    assert(s.subrange(8, 10) =~= zero_padded(date.2, 2));
    assert(s.subrange(11, 13) =~= zero_padded(clock.0, 2));
    assert(s.subrange(14, 16) =~= zero_padded(clock.1, 2));
    assert(s.subrange(17, 19) =~= zero_padded(clock.2, 2));
}

proof fn lemma_text_before_asymmetric(x: Seq<char>, y: Seq<char>)
    ensures
        !(text_before(x, y) && text_before(y, x)),
{
    if text_before(x, y) && text_before(y, x) {
        let k = choose|k: int| 0 <= k < x.len() && k < y.len() && x.take(k) == y.take(k) && x[k] < y[k];
        let j = choose|j: int| 0 <= j < y.len() && j < x.len() && y.take(j) == x.take(j) && y[j] < x[j];
        if k < j {
            assert(y.take(j)[k] == x.take(j)[k]);
        } else if j < k {
            assert(x.take(k)[j] == y.take(k)[j]);
        }
    }
}

/// Up to the end of the year 9999, stamps sort exactly as the times they
/// stand for, and two times share a stamp only when they are the same.
pub proof fn law_stamps_sort_as_times(a: nat, b: nat)
    requires
        a < 253_402_300_800,
        b < 253_402_300_800,
    ensures
        text_before(iso8601_text(a), iso8601_text(b)) <==> a < b,
        iso8601_text(a) == iso8601_text(b) <==> a == b,
{
    lemma_text_before_asymmetric(iso8601_text(a), iso8601_text(b));
    lemma_text_before_asymmetric(iso8601_text(a), iso8601_text(a));
    if a < b {
        law_later_times_have_later_stamps(a, b);
    } else if b < a {
        law_later_times_have_later_stamps(b, a);
    }
}

} // verus!
