//! Calendar and clock support: hour-granularity partition keys and
//! RFC 3339 millisecond date strings, both derived from an epoch-millisecond
//! timestamp. The proleptic Gregorian calendar itself is supplied by chrono
//! behind one trusted wrapper; everything built on top of it is verified.
use vstd::prelude::*;

use crate::strutil::{
    digit_char, four_digits, push_char, push_four_digits, push_three_digits, push_two_digits,
    three_digits, two_digits,
};

verus! {

/// First millisecond not rendered with a four-digit year
/// (midnight of January 1 of year 10000, UTC).
pub const MILLIS_LIMIT: u64 = 253402300800000;

/// Hour index of an epoch-millisecond timestamp: all timestamps within one
/// UTC hour share it, and timestamps of adjacent hours differ by one.
pub open spec fn hour_index(millis: int) -> int {
    millis / 3600000
}

/// Days since January 1, 1970 (UTC), as a function of the hour index.
pub open spec fn epoch_day(millis: int) -> int {
    hour_index(millis) / 24
}

/// Hour of the day, 0 to 23.
pub open spec fn hour_of_day(millis: int) -> int {
    hour_index(millis) % 24
}

/// Minute of the hour, 0 to 59.
pub open spec fn minute_of_hour(millis: int) -> int {
    (millis / 60000) % 60
}

/// Second of the minute, 0 to 59.
pub open spec fn second_of_minute(millis: int) -> int {
    (millis / 1000) % 60
}

/// Millisecond of the second, 0 to 999.
pub open spec fn milli_of_second(millis: int) -> int {
    millis % 1000
}

/// The proleptic Gregorian date (year, month, day-of-month) of a day
/// number counted with January 1 of year 1 as day 1. The calendar is
/// computed by chrono; this name stands for its result.
pub uninterp spec fn civil_of(days: int) -> (int, int, int);

/// Relies on chrono's `NaiveDate::from_num_days_from_ce_opt` together with
/// the `Datelike` accessors `year`, `month` and `day`: the proleptic
/// Gregorian date of a day number (January 1 of year 1 being day 1), `None`
/// exactly when the day is outside chrono's representable range. Day
/// 719163 is January 1, 1970 and day 3652059 is December 31, 9999; chrono
/// represents years from -262144 to 262143, so that whole span is `Some`,
/// and the calendar is monotone, which bounds the year over that span.
/// `month` ranges over 1 to 12 and `day` over 1 to 31.
#[verifier::external_body]
fn civil_from_ce_days(days: i32) -> (r: Option<(i32, u32, u32)>)
    ensures
        719163 <= days <= 3652059 ==> r is Some,
        r matches Some(t) ==> {
            &&& (t.0 as int, t.1 as int, t.2 as int) == civil_of(days as int)
            &&& 1 <= t.1 <= 12
            &&& 1 <= t.2 <= 31
            &&& days >= 719163 ==> t.0 >= 1970
            &&& days <= 3652059 ==> t.0 <= 9999
        },
{
    match chrono::NaiveDate::from_num_days_from_ce_opt(days) {
        Some(d) => Some((
            chrono::Datelike::year(&d),
            chrono::Datelike::month(&d),
            chrono::Datelike::day(&d),
        )),
        None => None,
    }
}

/// Relies on chrono's `Utc::now` and `DateTime::timestamp_millis`: the
/// number of non-leap milliseconds since the Unix epoch at the moment of
/// the call. Nothing is promised of the value; callers clamp it.
#[verifier::external_body]
fn clock_now_millis() -> i64 {
    chrono::Utc::now().timestamp_millis()
}

/// The current time in epoch milliseconds, clamped into the range the
/// formatting functions accept.
pub fn capture_now() -> (r: u64)
    ensures
        r < MILLIS_LIMIT,
{
    let raw = clock_now_millis();
    if raw < 0 {
        0
    } else if raw as u64 >= MILLIS_LIMIT {
        MILLIS_LIMIT - 1
    } else {
        raw as u64
    }
}

/// The partition key of a timestamp: `/dt=YYYYMMDD/hour=HH/` of its UTC
/// hour. Every component is a function of the hour index alone.
pub open spec fn partition_key_of(millis: int) -> Seq<char> {
    seq!['/', 'd', 't', '='] + four_digits(civil_of(epoch_day(millis) + 719163).0) + two_digits(
        civil_of(epoch_day(millis) + 719163).1,
    ) + two_digits(civil_of(epoch_day(millis) + 719163).2) + seq!['/', 'h', 'o', 'u', 'r', '=']
        + two_digits(hour_of_day(millis)) + seq!['/']
}

/// The RFC 3339 rendering of a timestamp in UTC with millisecond
/// precision: `YYYY-MM-DDTHH:MM:SS.mmmZ`.
pub open spec fn rfc3339_millis_of(millis: int) -> Seq<char> {
    four_digits(civil_of(epoch_day(millis) + 719163).0) + seq!['-'] + two_digits(
        civil_of(epoch_day(millis) + 719163).1,
    ) + seq!['-'] + two_digits(civil_of(epoch_day(millis) + 719163).2) + seq!['T'] + two_digits(
        hour_of_day(millis),
    ) + seq![':'] + two_digits(minute_of_hour(millis)) + seq![':'] + two_digits(
        second_of_minute(millis),
    ) + seq!['.'] + three_digits(milli_of_second(millis)) + seq!['Z']
}

/// Distinct decimal digits render as distinct characters.
proof fn lemma_digit_char_injective(a: int, b: int)
    requires
        0 <= a < 10,
        0 <= b < 10,
        digit_char(a) == digit_char(b),
    ensures
        a == b,
{
    assert(((48 + a) as u8) as char as u32 == 48 + a);
    assert(((48 + b) as u8) as char as u32 == 48 + b);
}

/// Two-digit renderings of distinct values below 100 are distinct.
proof fn lemma_two_digits_injective(a: int, b: int)
    requires
        0 <= a < 100,
        0 <= b < 100,
        two_digits(a) == two_digits(b),
    ensures
        a == b,
{
    assert(two_digits(a)[0] == two_digits(b)[0]);
    assert(two_digits(a)[1] == two_digits(b)[1]);
    lemma_digit_char_injective(a / 10, b / 10);
    lemma_digit_char_injective(a % 10, b % 10);
    vstd::arithmetic::div_mod::lemma_fundamental_div_mod(a, 10);
    vstd::arithmetic::div_mod::lemma_fundamental_div_mod(b, 10);
}

/// Any two timestamps of the same UTC hour share their partition key.
pub proof fn lemma_partition_same_hour(t1: int, t2: int)
    requires
        hour_index(t1) == hour_index(t2),
    ensures
        partition_key_of(t1) == partition_key_of(t2),
{
}

/// Timestamps of adjacent UTC hours have distinct partition keys.
pub proof fn lemma_partition_adjacent_hours(t1: int, t2: int)
    requires
        0 <= t1,
        hour_index(t2) == hour_index(t1) + 1,
    ensures
        partition_key_of(t1) != partition_key_of(t2),
{
    let h = hour_index(t1);
    assert(h >= 0) by {
        vstd::arithmetic::div_mod::lemma_div_pos_is_pos(t1, 3600000);
    }
    let q = h / 24;
    let r = h % 24;
    vstd::arithmetic::div_mod::lemma_fundamental_div_mod(h, 24);
    assert(0 <= r < 24) by {
        vstd::arithmetic::div_mod::lemma_mod_bound(h, 24);
    }
    assert(hour_of_day(t1) == r);
    if r < 23 {
        assert((24 * q + (r + 1)) % 24 == (r + 1) % 24) by {
            vstd::arithmetic::div_mod::lemma_mod_multiples_vanish(q, r + 1, 24);
        }
        assert((r + 1) % 24 == r + 1) by {
            vstd::arithmetic::div_mod::lemma_small_mod((r + 1) as nat, 24);
        }
        assert(hour_of_day(t2) == r + 1);
    } else {
        assert(h + 1 == 24 * (q + 1));
        assert((24 * (q + 1) + 0) % 24 == 0int % 24) by {
            vstd::arithmetic::div_mod::lemma_mod_multiples_vanish(q + 1, 0, 24);
        }
        assert(hour_of_day(t2) == 0);
    }
    assert(hour_of_day(t1) != hour_of_day(t2));
    let k1 = partition_key_of(t1);
    let k2 = partition_key_of(t2);
    if k1 == k2 {
        assert(k1[18] == two_digits(hour_of_day(t1))[0]);
        assert(k1[19] == two_digits(hour_of_day(t1))[1]);
        assert(k2[18] == two_digits(hour_of_day(t2))[0]);
        assert(k2[19] == two_digits(hour_of_day(t2))[1]);
        assert(two_digits(hour_of_day(t1)) =~= two_digits(hour_of_day(t2)));
        assert(0 <= hour_of_day(t2) < 24) by {
            vstd::arithmetic::div_mod::lemma_mod_bound(hour_index(t2), 24);
        }
        lemma_two_digits_injective(hour_of_day(t1), hour_of_day(t2));
        assert(false);
    }
}

/// The calendar date of `millis`, via chrono, together with the facts the
/// formatting functions need.
fn civil_parts(millis: u64) -> (r: (u32, u32, u32))
    requires
        millis < MILLIS_LIMIT,
    ensures
        (r.0 as int, r.1 as int, r.2 as int) == civil_of(epoch_day(millis as int) + 719163),
        1970 <= r.0 <= 9999,
        1 <= r.1 <= 12,
        1 <= r.2 <= 31,
{
    let day: u64 = millis / 86400000;
    proof {
        vstd::arithmetic::div_mod::lemma_div_denominator(millis as int, 3600000, 24);
        assert(day as int == epoch_day(millis as int));
        assert(day < 2932897) by {
            vstd::arithmetic::div_mod::lemma_div_is_ordered(
                millis as int,
                253402300799999,
                86400000,
            );
        }
    }
    let ce: i32 = (day as i32) + 719163;
    match civil_from_ce_days(ce) {
        Some((y, m, d)) => (y as u32, m, d),
        None => {
            proof {
                assert(false);
            }
            (1970, 1, 1)
        },
    }
}

/// Builds the partition key `/dt=YYYYMMDD/hour=HH/` of a timestamp.
pub fn partition_key(millis: u64) -> (r: String)
    requires
        millis < MILLIS_LIMIT,
    ensures
        r@ == partition_key_of(millis as int),
{
    let (y, m, d) = civil_parts(millis);
    let hour: u32 = ((millis / 3600000) % 24) as u32;
    let mut s = String::new();
    push_char(&mut s, '/');
    push_char(&mut s, 'd');
    push_char(&mut s, 't');
    push_char(&mut s, '=');
    push_four_digits(&mut s, y);
    push_two_digits(&mut s, m);
    push_two_digits(&mut s, d);
    push_char(&mut s, '/');
    push_char(&mut s, 'h');
    push_char(&mut s, 'o');
    push_char(&mut s, 'u');
    push_char(&mut s, 'r');
    push_char(&mut s, '=');
    push_two_digits(&mut s, hour);
    push_char(&mut s, '/');
    proof {
        assert(s@ =~= partition_key_of(millis as int));
    }
    s
}

/// Builds the RFC 3339 UTC rendering of a timestamp with millisecond
/// precision.
pub fn rfc3339_millis(millis: u64) -> (r: String)
    requires
        millis < MILLIS_LIMIT,
    ensures
        r@ == rfc3339_millis_of(millis as int),
{
    let (y, m, d) = civil_parts(millis);
    let hour: u32 = ((millis / 3600000) % 24) as u32;
    let minute: u32 = ((millis / 60000) % 60) as u32;
    let second: u32 = ((millis / 1000) % 60) as u32;
    let milli: u32 = (millis % 1000) as u32;
    let mut s = String::new();
    push_four_digits(&mut s, y);
    push_char(&mut s, '-');
    push_two_digits(&mut s, m);
    push_char(&mut s, '-');
    push_two_digits(&mut s, d);
    push_char(&mut s, 'T');
    push_two_digits(&mut s, hour);
    push_char(&mut s, ':');
    push_two_digits(&mut s, minute);
    push_char(&mut s, ':');
    push_two_digits(&mut s, second);
    push_char(&mut s, '.');
    push_three_digits(&mut s, milli);
    push_char(&mut s, 'Z');
    proof {
        assert(s@ =~= rfc3339_millis_of(millis as int));
    }
    s
}

} // verus!
