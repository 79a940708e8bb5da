//! The time of day that an alert shows.
use vstd::prelude::*;

use crate::text;

verus! {

/// The first millisecond, counted from the Unix epoch, that has a date.
pub const FIRST_MILLIS: i64 = -8334601228800000;

/// The last millisecond, counted from the Unix epoch, that has a date.
pub const LAST_MILLIS: i64 = 8210266876799999;

/// A number below one hundred with two digits.
pub open spec fn two_digits(n: int) -> Seq<char> {
    seq![text::digit(n / 10), text::digit(n % 10)]
}

/// Hour, minute and second, in UTC, of the given millisecond.
pub open spec fn clock_text(millis: int) -> Seq<char> {
    let second_of_day = (millis / 1000) % 86400;
    two_digits(second_of_day / 3600) + ":"@ + two_digits((second_of_day / 60) % 60) + ":"@
        + two_digits(second_of_day % 60)
}

/// A timestamp read as a signed number in two's complement.
pub open spec fn as_signed(ts_ms: u64) -> int {
    if ts_ms < 0x8000_0000_0000_0000 {
        ts_ms as int
    } else {
        ts_ms - 0x1_0000_0000_0000_0000
    }
}

/// What an alert shows for a timestamp.
pub open spec fn shown_time(ts_ms: u64) -> Seq<char> {
    if FIRST_MILLIS <= as_signed(ts_ms) <= LAST_MILLIS {
        clock_text(as_signed(ts_ms))
    } else {
        "??:??:??"@
    }
}

/// `DateTime::from_timestamp_millis` finds the instant in UTC, unless its date
/// is out of the range of dates, and `DateTime::format` writes its hour, minute
/// and second with two digits each, for a format that asks for these.
#[verifier::external_body]
pub(crate) fn format_utc(millis: i64, fmt: &str) -> (r: Option<String>)
    requires
        fmt@ == "%H:%M:%S"@,
    ensures
        r is Some <==> FIRST_MILLIS <= millis <= LAST_MILLIS,
        r matches Some(time) ==> time@ == clock_text(millis as int),
{
    match chrono::DateTime::from_timestamp_millis(millis) {
        Some(instant) => Some(instant.format(fmt).to_string()),
        None => None,
    }
}

/// The time of day of a timestamp, or question marks where it has none. Read as
/// a clock, it shows the second of the day, in UTC, that the timestamp is in.
pub fn format_ts(ts_ms: u64) -> (r: String)
    ensures
        r@ == shown_time(ts_ms),
        ts_ms <= 8_210_266_876_799_999 ==> reads_as(r@, (ts_ms as int / 1000) % 86400),
        ts_ms >= 0x1_0000_0000_0000_0000 - 8_334_601_228_800_000 ==> reads_as(
            r@,
            ((ts_ms - 0x1_0000_0000_0000_0000) / 1000) % 86400,
        ),
        8_210_266_876_799_999 < ts_ms < 0x1_0000_0000_0000_0000 - 8_334_601_228_800_000 ==> r@
            == "??:??:??"@,
{
    proof {
        law_clock_shows_the_second(ts_ms);
    }
    let millis: i64 = #[verifier::truncate] (ts_ms as i64);
    assert(ts_ms < 0x8000_0000_0000_0000 ==> (ts_ms as i64) == ts_ms) by (bit_vector);
    assert(ts_ms >= 0x8000_0000_0000_0000 ==> (ts_ms as i64) == ts_ms - 0x1_0000_0000_0000_0000)
        by (bit_vector);
    match format_utc(millis, "%H:%M:%S") {
        Some(time) => time,
        None => String::from("??:??:??"),
    }
}

/// The number that the two digits of `s` at `i` stand for.
pub open spec fn number_at(s: Seq<char>, i: int) -> int {
    10 * (s[i] as int - '0' as int) + (s[i + 1] as int - '0' as int)
}

/// `s` is a time of day, as hours, minutes and seconds with two digits each, and
/// it is the given second of the day.
pub open spec fn reads_as(s: Seq<char>, second: int) -> bool {
    &&& s.len() == 8
    &&& s[2] == ':' && s[5] == ':'
    &&& forall|i: int| 0 <= i < 8 && i != 2 && i != 5 ==> '0' <= #[trigger] s[i] <= '9'
    &&& number_at(s, 0) < 24 && number_at(s, 3) < 60 && number_at(s, 6) < 60
    &&& 3600 * number_at(s, 0) + 60 * number_at(s, 3) + number_at(s, 6) == second
}

/// What is shown is the second of the day that the timestamp is in: hours,
/// minutes and seconds add up to it. A timestamp counts as a signed number, and
/// one without a date shows no time.
pub proof fn law_clock_shows_the_second(ts_ms: u64)
    ensures
        ts_ms <= 8_210_266_876_799_999 ==> reads_as(shown_time(ts_ms), (ts_ms as int / 1000) % 86400),
        ts_ms >= 0x1_0000_0000_0000_0000 - 8_334_601_228_800_000 ==> reads_as(
            shown_time(ts_ms),
            ((ts_ms - 0x1_0000_0000_0000_0000) / 1000) % 86400,
        ),
        8_210_266_876_799_999 < ts_ms < 0x1_0000_0000_0000_0000 - 8_334_601_228_800_000
            ==> shown_time(ts_ms) == "??:??:??"@,
{
    reveal_strlit(":");
    let second = (as_signed(ts_ms) / 1000) % 86400;
    let h = second / 3600;
    let m = (second / 60) % 60;
    let s = second % 60;
    assert(0 <= h < 24 && 0 <= m < 60 && 0 <= s < 60);
    assert(3600 * h + 60 * m + s == second);
    let shown = clock_text(as_signed(ts_ms));
    assert(shown[0] == text::digit(h / 10) && shown[1] == text::digit(h % 10));
    assert(shown[3] == text::digit(m / 10) && shown[4] == text::digit(m % 10));
    assert(shown[6] == text::digit(s / 10) && shown[7] == text::digit(s % 10));
    assert(number_at(shown, 0) == h);
    assert(number_at(shown, 3) == m);
    assert(number_at(shown, 6) == s);
}

/// A second later the clock shows one second more, and after the last second of
/// the day the first: `now` and `then` are the seconds of the day that the two
/// times show.
pub proof fn law_clock_goes_on(ts_ms: u64, now: int, then: int)
    requires
        ts_ms + 1000 <= 8_210_266_876_799_999,
        reads_as(shown_time(ts_ms), now),
        reads_as(shown_time((ts_ms + 1000) as u64), then),
    ensures
        then == (now + 1) % 86400,
{
    let later = (ts_ms + 1000) as u64;
    law_clock_shows_the_second(ts_ms);
    law_clock_shows_the_second(later);
    lemma_one_reading(shown_time(ts_ms), now, (ts_ms as int / 1000) % 86400);
    lemma_one_reading(shown_time(later), then, (later as int / 1000) % 86400);
    lemma_next_second(ts_ms as int);
}

proof fn lemma_one_reading(s: Seq<char>, one: int, other: int)
    requires
        reads_as(s, one),
        reads_as(s, other),
    ensures
        one == other,
{
}

proof fn lemma_next_second(millis: int)
    ensures
        ((millis + 1000) / 1000) % 86400 == ((millis / 1000) % 86400 + 1) % 86400,
{
}

/// Within a second the clock stands still.
pub proof fn law_milliseconds_do_not_show(ts_ms: u64, other: u64)
    requires
        ts_ms <= 8_210_266_876_799_999,
        other <= 8_210_266_876_799_999,
        ts_ms / 1000 == other / 1000,
    ensures
        shown_time(ts_ms) == shown_time(other),
{
}

/// A shown time always has eight characters.
pub proof fn law_shown_time_has_eight_characters(ts_ms: u64)
    ensures
        shown_time(ts_ms).len() == 8,
{
    reveal_strlit(":");
    reveal_strlit("??:??:??");
}

/// Timestamps a whole number of days apart show the same time.
pub proof fn law_days_do_not_show(millis: int, days: int)
    ensures
        clock_text(millis + days * 86400000) == clock_text(millis),
{
    let other = millis + days * 86400000;
    assert(other / 1000 == millis / 1000 + days * 86400);
    assert((millis / 1000 + days * 86400) % 86400 == (millis / 1000) % 86400) by (nonlinear_arith);
}

} // verus!
