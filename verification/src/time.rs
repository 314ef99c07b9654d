//! Times, written `YYYY-MM-DDTHH:MM:SS.sssZ`.

use crate::text;
use vstd::prelude::*;
use vstd::string::*;

verus! {

// ---------------------------------------------------------------------------
// The calendar
// ---------------------------------------------------------------------------

/// Whether a year has a 29th of February.
pub open spec fn leap(y: int) -> bool {
    y % 4 == 0 && (y % 100 != 0 || y % 400 == 0)
}

/// How many days a month has.
pub open spec fn month_length(y: int, m: int) -> int {
    if m == 2 {
        if leap(y) {
            29
        } else {
            28
        }
    } else if m == 4 || m == 6 || m == 9 || m == 11 {
        30
    } else {
        31
    }
}

/// Whether a date is one of the calendar. Years are counted on below zero.
pub open spec fn is_date(y: int, m: int, d: int) -> bool {
    1 <= m <= 12 && 1 <= d <= month_length(y, m)
}

/// How many of the years before this one have a 29th of February.
pub open spec fn leaps_before(y: int) -> int {
    (y + 3) / 4 - (y + 99) / 100 + (y + 399) / 400
}

/// How many days of a year lie before a month.
pub open spec fn days_before_month(y: int, m: int) -> int {
    let common: int = if m <= 1 {
        0
    } else if m == 2 {
        31
    } else if m == 3 {
        59
    } else if m == 4 {
        90
    } else if m == 5 {
        120
    } else if m == 6 {
        151
    } else if m == 7 {
        181
    } else if m == 8 {
        212
    } else if m == 9 {
        243
    } else if m == 10 {
        273
    } else if m == 11 {
        304
    } else {
        334
    };
    if m > 2 && leap(y) {
        common + 1
    } else {
        common
    }
}

/// How many days after 1970-01-01 a date is.
pub open spec fn day_number(y: int, m: int, d: int) -> int {
    365 * y + leaps_before(y) + days_before_month(y, m) + d - 1 - 719_528
}

/// The date that is so many days after 1970-01-01.
pub open spec fn date_of(days: int) -> (int, int, int) {
    choose|t: (int, int, int)| is_date(t.0, t.1, t.2) && #[trigger] day_number(t.0, t.1, t.2)
        == days
}

/// Days are counted from 1970-01-01.
pub proof fn the_epoch_is_day_zero()
    ensures
        day_number(1970, 1, 1) == 0,
{
}

/// The day after a date has the next number.
pub proof fn days_are_consecutive(y: int, m: int, d: int)
    requires
        is_date(y, m, d),
    ensures
        d < month_length(y, m) ==> day_number(y, m, d + 1) == day_number(y, m, d) + 1,
        d == month_length(y, m) && m < 12 ==> day_number(y, m + 1, 1) == day_number(y, m, d) + 1,
        d == month_length(y, m) && m == 12 ==> day_number(y + 1, 1, 1) == day_number(y, m, d) + 1,
{
    if m == 12 {
        next_year(y);
    }
}

proof fn next_year(y: int)
    ensures
        leaps_before(y + 1) == leaps_before(y) + if leap(y) {
            1int
        } else {
            0
        },
{
    let a = y % 4;
    let b = y % 100;
    let c = y % 400;
    assert((y + 4) / 4 == (y + 3) / 4 + if a == 0 {
        1int
    } else {
        0
    });
    assert((y + 100) / 100 == (y + 99) / 100 + if b == 0 {
        1int
    } else {
        0
    });
    assert((y + 400) / 400 == (y + 399) / 400 + if c == 0 {
        1int
    } else {
        0
    });
}

proof fn later_year(y: int, z: int)
    requires
        y < z,
    ensures
        day_number(z, 1, 1) >= day_number(y, 12, 31) + 1,
    decreases z - y,
{
    next_year(z - 1);
    if y < z - 1 {
        later_year(y, z - 1);
    }
}

proof fn within_year(y: int, m: int, d: int)
    requires
        is_date(y, m, d),
    ensures
        day_number(y, 1, 1) <= day_number(y, m, d) <= day_number(y, 12, 31),
{
}

/// Later dates have greater numbers.
pub proof fn dates_are_ordered(t: (int, int, int), u: (int, int, int))
    requires
        is_date(t.0, t.1, t.2),
        is_date(u.0, u.1, u.2),
    ensures
        day_number(t.0, t.1, t.2) < day_number(u.0, u.1, u.2) <==> t.0 < u.0 || t.0 == u.0 && (t.1
            < u.1 || t.1 == u.1 && t.2 < u.2),
        day_number(t.0, t.1, t.2) == day_number(u.0, u.1, u.2) <==> t == u,
{
    within_year(t.0, t.1, t.2);
    within_year(u.0, u.1, u.2);
    if t.0 < u.0 {
        later_year(t.0, u.0);
    } else if u.0 < t.0 {
        later_year(u.0, t.0);
    }
}

/// A day has one date.
pub proof fn a_day_has_one_date(y: int, m: int, d: int)
    requires
        is_date(y, m, d),
    ensures
        date_of(day_number(y, m, d)) == (y, m, d),
{
    let n = day_number(y, m, d);
    let t = (y, m, d);
    assert(is_date(t.0, t.1, t.2) && day_number(t.0, t.1, t.2) == n);
    dates_are_ordered(t, date_of(n));
}

/// The years of a count by fours, centuries and four centuries.
proof fn march_year(n400: int, n100: int, n4: int, n1: int)
    requires
        0 <= n100 <= 3,
        0 <= n4 <= 24,
        0 <= n1 <= 3,
    ensures
        ({
            let y = n400 * 400 + n100 * 100 + n4 * 4 + n1;
            &&& y / 4 == n400 * 100 + n100 * 25 + n4
            &&& y / 100 == n400 * 4 + n100
            &&& y / 400 == n400
            &&& leap(y + 1) <==> n1 == 3 && (n4 < 24 || n100 == 3)
        }),
{
}

/// The month of a day of a year that begins in March.
proof fn march_month(doy: int, y: int)
    requires
        0 <= doy <= 365,
    ensures
        ({
            let (m, d) = march_parts(doy);
            let extra: int = if leap(y) {
                1
            } else {
                0
            };
            &&& 1 <= m <= 12
            &&& m <= 2 <==> doy >= 306
            &&& 1 <= d <= if m == 2 {
                29
            } else {
                month_length(y, m)
            }
            &&& m == 2 && d == 29 <==> doy == 365
            &&& m > 2 ==> days_before_month(y, m) + d - 1 == doy + 59 + extra
            &&& m <= 2 ==> days_before_month(y, m) + d - 1 == doy - 306
        }),
{
    let mp = (5 * doy + 2) / 153;
    assert(0 <= mp <= 11);
    if mp == 0 {
    } else if mp == 1 {
    } else if mp == 2 {
    } else if mp == 3 {
    } else if mp == 4 {
    } else if mp == 5 {
    } else if mp == 6 {
    } else if mp == 7 {
    } else if mp == 8 {
    } else if mp == 9 {
    } else if mp == 10 {
    } else {
    }
}

/// The leap years up to a year.
proof fn leaps_through(y: int)
    ensures
        leaps_before(y + 1) == y / 4 - y / 100 + y / 400 + 1,
{
    assert((y + 4) / 4 == y / 4 + 1);
    assert((y + 100) / 100 == y / 100 + 1);
    assert((y + 400) / 400 == y / 400 + 1);
}

/// The month and the day of a day of a year that begins in March.
spec fn march_parts(doy: int) -> (int, int) {
    let mp = (5 * doy + 2) / 153;
    (
        if mp < 10 {
            mp + 3
        } else {
            mp - 9
        },
        doy - (153 * mp + 2) / 5 + 1,
    )
}

/// The date of a day of a year that begins in March, so that a leap day is the
/// last of its year.
spec fn march_date(y: int, doy: int) -> (int, int, int) {
    let (m, d) = march_parts(doy);
    (
        if m <= 2 {
            y + 1
        } else {
            y
        },
        m,
        d,
    )
}

proof fn march_day(y: int, doy: int)
    requires
        0 <= doy <= 365,
        doy == 365 ==> leap(y + 1),
    ensures
        ({
            let t = march_date(y, doy);
            &&& is_date(t.0, t.1, t.2)
            &&& day_number(t.0, t.1, t.2) == 365 * y + y / 4 - y / 100 + y / 400 + doy - 719_468
        }),
{
    leaps_through(y);
    if doy < 306 {
        march_month(doy, y);
        next_year(y);
    } else {
        march_month(doy, y + 1);
    }
}

/// The day of a count by four centuries, centuries, fours and years, and the
/// days that are left.
proof fn counted_day(n400: int, n100: int, n4: int, n1: int, doy: int)
    requires
        0 <= n100 <= 3,
        0 <= n4 <= 24,
        0 <= n1 <= 3,
        0 <= doy <= 365,
        doy == 365 ==> n1 == 3 && (n4 < 24 || n100 == 3),
    ensures
        ({
            let t = march_date(n400 * 400 + n100 * 100 + n4 * 4 + n1, doy);
            &&& is_date(t.0, t.1, t.2)
            &&& day_number(t.0, t.1, t.2) == 146_097 * n400 + 36_524 * n100 + 1_461 * n4 + 365 * n1
                + doy - 719_468
        }),
{
    march_year(n400, n100, n4, n1);
    march_day(n400 * 400 + n100 * 100 + n4 * 4 + n1, doy);
}

/// The day after a date.
pub open spec fn day_after(t: (int, int, int)) -> (int, int, int) {
    if t.2 < month_length(t.0, t.1) {
        (t.0, t.1, t.2 + 1)
    } else if t.1 < 12 {
        (t.0, t.1 + 1, 1)
    } else {
        (t.0 + 1, 1, 1)
    }
}

/// Every day has a date.
pub proof fn every_day_has_a_date(days: int)
    ensures
        is_date(date_of(days).0, date_of(days).1, date_of(days).2),
        day_number(date_of(days).0, date_of(days).1, date_of(days).2) == days,
{
    let z = days + 719_468;
    let r400 = z % 146_097;
    let n100 = if r400 / 36_524 > 3 {
        3
    } else {
        r400 / 36_524
    };
    let r100 = r400 - n100 * 36_524;
    let n4 = r100 / 1_461;
    let r4 = r100 % 1_461;
    let n1 = if r4 / 365 > 3 {
        3
    } else {
        r4 / 365
    };
    let doy = r4 - n1 * 365;
    counted_day(z / 146_097, n100, n4, n1, doy);
    let t = march_date(z / 146_097 * 400 + n100 * 100 + n4 * 4 + n1, doy);
    assert(is_date(t.0, t.1, t.2) && day_number(t.0, t.1, t.2) == days);
}

/// Day 0 is 1970-01-01, and the next day has the date that follows.
pub proof fn dates_follow_each_other(days: int)
    ensures
        date_of(0) == (1970int, 1int, 1int),
        date_of(days + 1) == day_after(date_of(days)),
{
    the_epoch_is_day_zero();
    a_day_has_one_date(1970, 1, 1);
    every_day_has_a_date(days);
    let t = date_of(days);
    let u = day_after(t);
    days_are_consecutive(t.0, t.1, t.2);
    a_day_has_one_date(u.0, u.1, u.2);
}

/// The date that is so many days after 1970-01-01.
fn date_at(days: i128) -> (r: (i128, u32, u32))
    requires
        i64::MIN <= days <= u128::MAX / 86_400_000,
    ensures
        is_date(r.0 as int, r.1 as int, r.2 as int),
        day_number(r.0 as int, r.1 as int, r.2 as int) == days,
        (r.0 as int, r.1 as int, r.2 as int) == date_of(days as int),
{
    // Counted in years that begin in March, from so many times four centuries
    // before the year 0 that no day lies before.
    let back: i128 = 1_000_000_000_000_000;
    let z: i128 = days + 719_468 + back * 146_097;
    let n400: i128 = z / 146_097 - back;
    let r400: i128 = z % 146_097;
    let n100: i128 = if r400 / 36_524 > 3 {
        3
    } else {
        r400 / 36_524
    };
    let r100: i128 = r400 - n100 * 36_524;
    let n4: i128 = r100 / 1_461;
    let r4: i128 = r100 % 1_461;
    let n1: i128 = if r4 / 365 > 3 {
        3
    } else {
        r4 / 365
    };
    let doy: i128 = r4 - n1 * 365;
    let y: i128 = n400 * 400 + n100 * 100 + n4 * 4 + n1;
    proof {
        counted_day(n400 as int, n100 as int, n4 as int, n1 as int, doy as int);
        march_month(doy as int, y as int);
    }
    let mp: i128 = (5 * doy + 2) / 153;
    let d: i128 = doy - (153 * mp + 2) / 5 + 1;
    let m: i128 = if mp < 10 {
        mp + 3
    } else {
        mp - 9
    };
    let year: i128 = if m <= 2 {
        y + 1
    } else {
        y
    };
    proof {
        a_day_has_one_date(year as int, m as int, d as int);
    }
    (year, m as u32, d as u32)
}

/// The date that is so many days after 1970-01-01: year, month and day.
pub fn civil_from_days(days: i64) -> (r: (i64, u32, u32))
    ensures
        (r.0 as int, r.1 as int, r.2 as int) == date_of(days as int),
        is_date(r.0 as int, r.1 as int, r.2 as int),
        day_number(r.0 as int, r.1 as int, r.2 as int) == days,
{
    let (y, m, d) = date_at(days as i128);
    proof {
        within_year(y as int, m as int, d as int);
    }
    (y as i64, m, d)
}

// ---------------------------------------------------------------------------
// Writing
// ---------------------------------------------------------------------------

/// The numeral of a number, with leading zeros up to a width.
pub open spec fn padded(n: nat, width: nat) -> Seq<char> {
    zeros((width - text::decimal(n).len()) as int) + text::decimal(n)
}

/// So many zeros.
pub open spec fn zeros(k: int) -> Seq<char> {
    Seq::new(if k > 0 { k as nat } else { 0 }, |i: int| '0')
}

/// A day and the milliseconds of that day, written `YYYY-MM-DDTHH:MM:SS.sssZ`.
pub open spec fn written_day(days: int, ms: int) -> Seq<char> {
    let date = date_of(days);
    padded(date.0 as nat, 4) + "-"@ + padded(date.1 as nat, 2) + "-"@ + padded(date.2 as nat, 2)
        + "T"@ + padded((ms / 3_600_000) as nat, 2) + ":"@ + padded(
        (ms / 60_000 % 60) as nat,
        2,
    ) + ":"@ + padded((ms / 1_000 % 60) as nat, 2) + "."@ + padded((ms % 1_000) as nat, 3) + "Z"@
}

/// The instant so many milliseconds after 1970-01-01, written
/// `YYYY-MM-DDTHH:MM:SS.sssZ`.
pub open spec fn written(millis: int) -> Seq<char> {
    written_day(millis / 86_400_000, millis % 86_400_000)
}

/// The largest number that a width holds, and one.
spec fn room(width: nat) -> nat {
    if width == 2 {
        100
    } else if width == 3 {
        1_000
    } else {
        10_000
    }
}

/// Whether a text is the numeral of a number with so many digits.
spec fn spells(s: Seq<char>, n: nat, width: nat) -> bool {
    &&& s.len() == width
    &&& s[width - 1] == text::digit(n % 10)
    &&& s[width - 2] == text::digit(n / 10 % 10)
    &&& width > 2 ==> s[width - 3] == text::digit(n / 100 % 10)
    &&& width > 3 ==> s[width - 4] == text::digit(n / 1_000 % 10)
}

/// A number that fits is written with as many digits as its width.
proof fn padded_digits(n: nat, width: nat)
    requires
        2 <= width <= 4,
        n < room(width),
    ensures
        spells(padded(n, width), n, width),
{
    reveal_with_fuel(text::decimal, 4);
    assert(n / 10 / 10 == n / 100);
    assert(n / 10 / 10 / 10 == n / 1_000);
    assert(n / 100 / 10 == n / 1_000);
}

/// Numerals are digits.
proof fn spelled_digits(s: Seq<char>, n: nat, width: nat)
    requires
        2 <= width <= 4,
        spells(s, n, width),
    ensures
        text::all_digits(s),
{
    assert forall|i: int| 0 <= i < s.len() implies text::is_digit(#[trigger] s[i]) by {
        if i == width - 1 {
        } else if i == width - 2 {
        } else if i == width - 3 {
        } else {
            assert(i == width - 4);
        }
    }
}

/// The order of numbers that fit is that of their numerals.
proof fn spelled_ordered(a: Seq<char>, b: Seq<char>, x: nat, y: nat, width: nat)
    requires
        2 <= width <= 4,
        x < y < room(width),
        spells(a, x, width),
        spells(b, y, width),
    ensures
        text::precedes(a, b),
{
    assert(x / 100 == x / 1_000 * 10 + x / 100 % 10 && y / 100 == y / 1_000 * 10 + y / 100 % 10);
    assert(x / 10 == x / 100 * 10 + x / 10 % 10 && y / 10 == y / 100 * 10 + y / 10 % 10);
    if width > 3 && x / 1_000 < y / 1_000 {
        text::precedes_at(a, b, 0);
    } else if width > 2 && x / 100 < y / 100 {
        text::precedes_at(a, b, width - 3);
    } else if x / 10 < y / 10 {
        text::precedes_at(a, b, width - 2);
    } else {
        text::precedes_at(a, b, width - 1);
    }
}

/// The year of an instant before the year 10000 has four digits.
proof fn years_fit(days: int)
    requires
        -719_528 <= days <= 2_932_896,
    ensures
        0 <= date_of(days).0 < 10_000,
        is_date(date_of(days).0, date_of(days).1, date_of(days).2),
        day_number(date_of(days).0, date_of(days).1, date_of(days).2) == days,
{
    every_day_has_a_date(days);
    dates_are_ordered((-1int, 12int, 31int), date_of(days));
    dates_are_ordered(date_of(days), (10_000int, 1int, 1int));
}

/// Seven fields, laid out as an instant.
spec fn laid_out(f: Seq<Seq<char>>) -> Seq<char> {
    f[0] + "-"@ + f[1] + "-"@ + f[2] + "T"@ + f[3] + ":"@ + f[4] + ":"@ + f[5] + "."@ + f[6] + "Z"@
}

/// Whether two texts have one length, and the first comes before the second or
/// they are the same.
spec fn in_order(a: Seq<char>, b: Seq<char>) -> bool {
    a.len() == b.len() && (text::precedes(a, b) || a == b)
}

/// Parts in order make texts in order.
proof fn parts_in_order(p: Seq<char>, q: Seq<char>, a: Seq<char>, b: Seq<char>, s: Seq<char>)
    requires
        in_order(p, q),
        text::precedes(p, q) || in_order(a, b),
    ensures
        a.len() == b.len() ==> in_order(p + a + s, q + b + s),
        text::precedes(p, q) || text::precedes(a, b) ==> text::precedes(p + a + s, q + b + s),
{
    if text::precedes(p, q) {
        text::precedes_goes_on(p, q, a, b);
        if (p + a).len() == (q + b).len() {
            text::precedes_goes_on(p + a, q + b, s, s);
        } else {
            text::precedes_goes_on(p, q, a + s, b + s);
            assert(p + a + s =~= p + (a + s));
            assert(q + b + s =~= q + (b + s));
        }
    } else if text::precedes(a, b) {
        text::precedes_behind(p, a, b);
        text::precedes_goes_on(p + a, q + b, s, s);
    }
}

/// The first field in which two instants differ decides the order of their
/// texts.
proof fn laid_out_in_order(f: Seq<Seq<char>>, g: Seq<Seq<char>>, k: int)
    requires
        f.len() == 7,
        g.len() == 7,
        0 <= k < 7,
        forall|i: int| 0 <= i < 7 ==> (#[trigger] f[i]).len() == g[i].len(),
        forall|i: int| 0 <= i < k ==> f[i] == g[i],
        text::precedes(f[k], g[k]),
    ensures
        text::precedes(laid_out(f), laid_out(g)),
{
    let e = Seq::<char>::empty();
    assert(e + f[0] =~= f[0]);
    assert(e + g[0] =~= g[0]);
    let (p1, q1) = (f[0] + "-"@, g[0] + "-"@);
    parts_in_order(e, e, f[0], g[0], "-"@);
    let (p2, q2) = (p1 + f[1] + "-"@, q1 + g[1] + "-"@);
    parts_in_order(p1, q1, f[1], g[1], "-"@);
    let (p3, q3) = (p2 + f[2] + "T"@, q2 + g[2] + "T"@);
    parts_in_order(p2, q2, f[2], g[2], "T"@);
    let (p4, q4) = (p3 + f[3] + ":"@, q3 + g[3] + ":"@);
    parts_in_order(p3, q3, f[3], g[3], ":"@);
    let (p5, q5) = (p4 + f[4] + ":"@, q4 + g[4] + ":"@);
    parts_in_order(p4, q4, f[4], g[4], ":"@);
    let (p6, q6) = (p5 + f[5] + "."@, q5 + g[5] + "."@);
    parts_in_order(p5, q5, f[5], g[5], "."@);
    parts_in_order(p6, q6, f[6], g[6], "Z"@);
}

/// The fields of an instant of a day.
spec fn fields_of(t: (int, int, int), ms: int) -> Seq<nat> {
    seq![
        t.0 as nat,
        t.1 as nat,
        t.2 as nat,
        (ms / 3_600_000) as nat,
        (ms / 60_000 % 60) as nat,
        (ms / 1_000 % 60) as nat,
        (ms % 1_000) as nat,
    ]
}

/// How wide a field is.
spec fn field_width(i: int) -> nat {
    if i == 0 {
        4
    } else if i == 6 {
        3
    } else {
        2
    }
}

/// The fields of an instant of a day, written.
spec fn texts_of(f: Seq<nat>) -> Seq<Seq<char>> {
    Seq::new(7, |i: int| padded(f[i], field_width(i)))
}

/// Later in a day is later in the first of the hours, minutes, seconds and
/// milliseconds that differ.
proof fn times_ordered(m: int, n: int) -> (k: int)
    requires
        0 <= m < n < 86_400_000,
    ensures
        3 <= k <= 6,
        k == 3 ==> m / 3_600_000 < n / 3_600_000,
        k > 3 ==> m / 3_600_000 == n / 3_600_000,
        k == 4 ==> m / 60_000 % 60 < n / 60_000 % 60,
        k > 4 ==> m / 60_000 % 60 == n / 60_000 % 60,
        k == 5 ==> m / 1_000 % 60 < n / 1_000 % 60,
        k > 5 ==> m / 1_000 % 60 == n / 1_000 % 60,
        k == 6 ==> m % 1_000 < n % 1_000,
{
    assert(m / 60_000 == m / 3_600_000 * 60 + m / 60_000 % 60);
    assert(n / 60_000 == n / 3_600_000 * 60 + n / 60_000 % 60);
    assert(m / 1_000 == m / 60_000 * 60 + m / 1_000 % 60);
    assert(n / 1_000 == n / 60_000 * 60 + n / 1_000 % 60);
    if m / 3_600_000 < n / 3_600_000 {
        3
    } else if m / 60_000 < n / 60_000 {
        4
    } else if m / 1_000 < n / 1_000 {
        5
    } else {
        6
    }
}

/// What is written of an instant are its fields.
proof fn written_fields(a: int)
    requires
        -62_167_219_200_000 <= a < 253_402_300_800_000,
    ensures
        ({
            let f = fields_of(date_of(a / 86_400_000), a % 86_400_000);
            &&& written(a) == laid_out(texts_of(f))
            &&& forall|i: int|
                0 <= i < 7 ==> (#[trigger] f[i]) < room(field_width(i)) && spells(
                    texts_of(f)[i],
                    f[i],
                    field_width(i),
                )
        }),
{
    let f = fields_of(date_of(a / 86_400_000), a % 86_400_000);
    years_fit(a / 86_400_000);
    assert forall|i: int| 0 <= i < 7 implies (#[trigger] f[i]) < room(field_width(i)) && spells(
        texts_of(f)[i],
        f[i],
        field_width(i),
    ) by {
        assert(f[i] < room(field_width(i)));
        padded_digits(f[i], field_width(i));
    }
}

/// A later instant is written as a text that comes later in the order of
/// characters.
pub proof fn instants_are_ordered(a: int, b: int)
    requires
        -62_167_219_200_000 <= a < b < 253_402_300_800_000,
    ensures
        text::precedes(written(a), written(b)),
{
    let (i, j) = (a / 86_400_000, b / 86_400_000);
    let (m, n) = (a % 86_400_000, b % 86_400_000);
    let (t, u) = (date_of(i), date_of(j));
    years_fit(i);
    years_fit(j);
    dates_are_ordered(t, u);
    written_fields(a);
    written_fields(b);
    let (f, g) = (fields_of(t, m), fields_of(u, n));
    let k: int = if i == j {
        times_ordered(m, n)
    } else if t.0 < u.0 {
        0
    } else if t.1 < u.1 {
        1
    } else {
        2
    };
    assert(f[k] < g[k]);
    let (v, w) = (texts_of(f), texts_of(g));
    spelled_ordered(v[k], w[k], f[k], g[k], field_width(k));
    assert forall|x: int| 0 <= x < 7 implies (#[trigger] v[x]).len() == w[x].len() by {
        assert(spells(v[x], f[x], field_width(x)));
        assert(spells(w[x], g[x], field_width(x)));
    }
    assert forall|x: int| 0 <= x < k implies v[x] == w[x] by {
        assert(f[x] == g[x]);
    }
    laid_out_in_order(v, w, k);
}

/// Whether a text has the shape `YYYY-MM-DDTHH:MM:SS.sssZ`.
pub open spec fn is_timestamp(s: Seq<char>) -> bool {
    &&& s.len() == 24
    &&& s[4] == '-' && s[7] == '-' && s[10] == 'T' && s[13] == ':' && s[16] == ':' && s[19] == '.'
        && s[23] == 'Z'
    &&& forall|i: int|
        0 <= i < 23 && i != 4 && i != 7 && i != 10 && i != 13 && i != 16 && i != 19
            ==> text::is_digit(#[trigger] s[i])
}

proof fn laid_out_shape(f: Seq<Seq<char>>)
    requires
        f.len() == 7,
        forall|i: int|
            0 <= i < 7 ==> (#[trigger] f[i]).len() == field_width(i) && text::all_digits(f[i]),
    ensures
        is_timestamp(laid_out(f)),
{
    reveal_strlit("-");
    reveal_strlit("T");
    reveal_strlit(":");
    reveal_strlit(".");
    reveal_strlit("Z");
    let s = laid_out(f);
    assert(f[0].len() == 4 && f[1].len() == 2 && f[2].len() == 2 && f[3].len() == 2);
    assert(f[4].len() == 2 && f[5].len() == 2 && f[6].len() == 3);
    assert(s.subrange(0, 4) =~= f[0]);
    assert(s.subrange(5, 7) =~= f[1]);
    assert(s.subrange(8, 10) =~= f[2]);
    assert(s.subrange(11, 13) =~= f[3]);
    assert(s.subrange(14, 16) =~= f[4]);
    assert(s.subrange(17, 19) =~= f[5]);
    assert(s.subrange(20, 23) =~= f[6]);
    assert forall|i: int|
        0 <= i < 23 && i != 4 && i != 7 && i != 10 && i != 13 && i != 16 && i
            != 19 implies text::is_digit(#[trigger] s[i]) by {
        if i < 4 {
            assert(text::is_digit(f[0][i]));
        } else if i < 7 {
            assert(text::is_digit(f[1][i - 5]));
        } else if i < 10 {
            assert(text::is_digit(f[2][i - 8]));
        } else if i < 13 {
            assert(text::is_digit(f[3][i - 11]));
        } else if i < 16 {
            assert(text::is_digit(f[4][i - 14]));
        } else if i < 19 {
            assert(text::is_digit(f[5][i - 17]));
        } else {
            assert(text::is_digit(f[6][i - 20]));
        }
    }
}

/// An instant of the years 0 to 9999 is written in that shape.
pub proof fn instants_have_a_shape(a: int)
    requires
        -62_167_219_200_000 <= a < 253_402_300_800_000,
    ensures
        is_timestamp(written(a)),
{
    written_fields(a);
    let f = fields_of(date_of(a / 86_400_000), a % 86_400_000);
    let v = texts_of(f);
    assert forall|i: int| 0 <= i < 7 implies (#[trigger] v[i]).len() == field_width(i)
        && text::all_digits(v[i]) by {
        assert(spells(v[i], f[i], field_width(i)));
        spelled_digits(v[i], f[i], field_width(i));
    }
    laid_out_shape(v);
}

fn pad(n: u128, width: usize) -> (r: String)
    ensures
        r@ == padded(n as nat, width as nat),
{
    let d = text::wide_decimal_text(n);
    let len: usize = d.as_str().unicode_len();
    let mut r = String::new();
    let mut i: usize = len;
    assert(r@ =~= zeros(0));
    while i < width
        invariant
            len <= i,
            i <= width || i == len,
            r@ == zeros(i - len),
        decreases width - i,
    {
        r.push('0');
        i += 1;
        assert(r@ =~= zeros(i - len));
    }
    assert(zeros(width - len) =~= r@);
    r.append(d.as_str());
    r
}

fn write_day(days: i128, ms: u64) -> (r: String)
    requires
        -719_528 <= days <= u128::MAX / 86_400_000,
        ms < 86_400_000,
    ensures
        r@ == written_day(days as int, ms as int),
{
    let (y, m, d) = date_at(days);
    proof {
        if y < 0 {
            within_year(y as int, m as int, d as int);
            later_year(y as int, 0);
        }
    }
    let mut r = pad(y as u128, 4);
    r.append("-");
    r.append(pad(m as u128, 2).as_str());
    r.append("-");
    r.append(pad(d as u128, 2).as_str());
    r.append("T");
    r.append(pad((ms / 3_600_000) as u128, 2).as_str());
    r.append(":");
    r.append(pad((ms / 60_000 % 60) as u128, 2).as_str());
    r.append(":");
    r.append(pad((ms / 1_000 % 60) as u128, 2).as_str());
    r.append(".");
    r.append(pad((ms % 1_000) as u128, 3).as_str());
    r.append("Z");
    r
}

/// The instant so many milliseconds after 1970-01-01.
pub fn format_epoch_millis(millis: u128) -> (r: String)
    ensures
        r@ == written(millis as int),
{
    write_day((millis / 86_400_000) as i128, (millis % 86_400_000) as u64)
}

/// The current time, given what the clock says in milliseconds after
/// 1970-01-01; that day's beginning when the clock cannot be read.
pub fn utc_now_iso8601(clock: Option<u128>) -> (r: String)
    ensures
        r@ == written(
            match clock {
                Some(millis) => millis as int,
                None => 0,
            },
        ),
{
    match clock {
        Some(millis) => format_epoch_millis(millis),
        None => format_epoch_millis(0),
    }
}

// ---------------------------------------------------------------------------
// Reading
// ---------------------------------------------------------------------------

/// The number written with the digits `a..b`.
pub open spec fn field(s: Seq<char>, a: int, b: int) -> Option<int> {
    match text::number_in(s.subrange(a, b), 9_999) {
        Some(n) => Some(n as int),
        None => None,
    }
}

/// Where the digits that begin at `i` end.
pub open spec fn digits_end(s: Seq<char>, i: int) -> int
    decreases s.len() - i,
{
    if 0 <= i < s.len() && text::is_digit(s[i]) {
        digits_end(s, i + 1)
    } else {
        i
    }
}

/// Where a fraction of a second that may begin at `i` ends.
pub open spec fn fraction_end(s: Seq<char>, i: int) -> int {
    if i < s.len() && s[i] == '.' {
        digits_end(s, i + 1)
    } else {
        i
    }
}

/// The milliseconds of a fraction of a second that may begin at `i`, rounded
/// down.
pub open spec fn fraction(s: Seq<char>, i: int) -> Option<int> {
    if i < s.len() && s[i] == '.' {
        let digits = fraction_end(s, i) - i - 1;
        if digits <= 0 {
            None
        } else if digits == 1 {
            Some(100 * text::digits_value(s.subrange(i + 1, i + 2)) as int)
        } else if digits == 2 {
            Some(10 * text::digits_value(s.subrange(i + 1, i + 3)) as int)
        } else {
            Some(text::digits_value(s.subrange(i + 1, i + 4)) as int)
        }
    } else {
        Some(0)
    }
}

/// The minutes by which the zone written from `i` on is ahead of UTC: `Z`,
/// `+HH:MM`, `+HHMM`, the same with `-`, or nothing.
pub open spec fn zone(s: Seq<char>, i: int) -> Option<int> {
    let n = s.len() - i;
    if n == 0 || n == 1 && s[i] == 'Z' {
        Some(0)
    } else if (n == 5 || n == 6 && s[i + 3] == ':') && (s[i] == '+' || s[i] == '-') {
        match (field(s, i + 1, i + 3), field(s, s.len() - 2, s.len() as int)) {
            (Some(h), Some(m)) => if h < 24 && m < 60 {
                Some(
                    if s[i] == '+' {
                        h * 60 + m
                    } else {
                        -(h * 60 + m)
                    },
                )
            } else {
                None
            },
            _ => None,
        }
    } else {
        None
    }
}

/// The day and the time of day that a timestamp names, without its zone, in
/// milliseconds after 1970-01-01.
pub open spec fn local_millis(s: Seq<char>) -> Option<int> {
    if s.len() < 19 || s[4] != '-' || s[7] != '-' || s[10] != 'T' || s[13] != ':' || s[16] != ':' {
        None
    } else {
        match (field(s, 0, 4), field(s, 5, 7), field(s, 8, 10)) {
            (Some(y), Some(mo), Some(d)) => match (
                field(s, 11, 13),
                field(s, 14, 16),
                field(s, 17, 19),
                fraction(s, 19),
            ) {
                (Some(h), Some(mi), Some(sec), Some(ms)) => if is_date(y, mo, d) && h < 24 && mi
                    < 60 && sec < 60 {
                    Some(
                        day_number(y, mo, d) * 86_400_000 + h * 3_600_000 + mi * 60_000 + sec
                            * 1_000 + ms,
                    )
                } else {
                    None
                },
                _ => None,
            },
            _ => None,
        }
    }
}

/// The instant that a timestamp names, in milliseconds after 1970-01-01.
/// Timestamps have the form `YYYY-MM-DDTHH:MM:SS[.fff][Z|+HH:MM|+HHMM]`.
pub open spec fn instant(s: Seq<char>) -> Option<int> {
    match (local_millis(s), zone(s, fraction_end(s, 19))) {
        (Some(t), Some(z)) => Some(t - z * 60_000),
        _ => None,
    }
}

/// A timestamp in UTC with milliseconds, when it is one and its year has four
/// digits there too.
pub open spec fn normalized(s: Seq<char>) -> Option<Seq<char>> {
    match instant(text::trimmed(s)) {
        Some(t) => if -719_528 <= t / 86_400_000 <= 2_932_896 {
            Some(written(t))
        } else {
            None
        },
        None => None,
    }
}

fn read_field(cs: &Vec<char>, a: usize, b: usize) -> (r: Option<i64>)
    requires
        a <= b <= cs@.len(),
    ensures
        match r {
            Some(n) => field(cs@, a as int, b as int) == Some(n as int) && 0 <= n <= 9_999,
            None => field(cs@, a as int, b as int) is None,
        },
{
    let part = text::string_of(cs, a, b);
    match text::read_number(part.as_str(), 9_999) {
        Some(n) => Some(n as i64),
        None => None,
    }
}

fn read_digits_end(cs: &Vec<char>, from: usize) -> (r: usize)
    requires
        from <= cs@.len(),
    ensures
        from <= r <= cs@.len(),
        r == digits_end(cs@, from as int),
        text::all_digits(cs@.subrange(from as int, r as int)),
{
    let mut i: usize = from;
    while i < cs.len() && '0' <= cs[i] && cs[i] <= '9'
        invariant
            from <= i <= cs@.len(),
            digits_end(cs@, from as int) == digits_end(cs@, i as int),
            text::all_digits(cs@.subrange(from as int, i as int)),
        decreases cs.len() - i,
    {
        assert(text::is_digit(cs@[i as int]));
        i += 1;
        assert forall|j: int| 0 <= j < i - from implies text::is_digit(
            #[trigger] cs@.subrange(from as int, i as int)[j],
        ) by {
            if j < i - from - 1 {
                assert(text::is_digit(cs@.subrange(from as int, i - 1)[j]));
            }
        }
    }
    i
}

fn read_fraction(cs: &Vec<char>, from: usize) -> (r: (Option<i64>, usize))
    requires
        from <= cs@.len(),
    ensures
        from <= r.1 <= cs@.len(),
        r.1 == fraction_end(cs@, from as int),
        match r.0 {
            Some(n) => fraction(cs@, from as int) == Some(n as int) && 0 <= n <= 999,
            None => fraction(cs@, from as int) is None,
        },
{
    if from < cs.len() && cs[from] == '.' {
        let end: usize = read_digits_end(cs, from + 1);
        let all: usize = end - from - 1;
        if all == 0 {
            return (None, end);
        }
        let used: usize = if all > 3 {
            3
        } else {
            all
        };
        let digits = text::string_of(cs, from + 1, from + 1 + used);
        proof {
            assert forall|j: int| 0 <= j < used implies text::is_digit(#[trigger] digits@[j]) by {
                assert(text::is_digit(cs@.subrange(from + 1, end as int)[j]));
            }
            text::digits_value_bound(digits@);
        }
        match text::read_number(digits.as_str(), 999) {
            Some(n) => {
                let ms: i64 = if used == 1 {
                    100 * n as i64
                } else if used == 2 {
                    10 * n as i64
                } else {
                    n as i64
                };
                (Some(ms), end)
            },
            None => (None, end),
        }
    } else {
        (Some(0), from)
    }
}

fn read_zone(cs: &Vec<char>, from: usize) -> (r: Option<i64>)
    requires
        from <= cs@.len(),
    ensures
        match r {
            Some(n) => zone(cs@, from as int) == Some(n as int) && -1_440 < n < 1_440,
            None => zone(cs@, from as int) is None,
        },
{
    let n: usize = cs.len() - from;
    if n == 0 {
        return Some(0);
    }
    if n == 1 && cs[from] == 'Z' {
        return Some(0);
    }
    if (n == 5 || n == 6 && cs[from + 3] == ':') && (cs[from] == '+' || cs[from] == '-') {
        let h = read_field(cs, from + 1, from + 3);
        let m = read_field(cs, cs.len() - 2, cs.len());
        match (h, m) {
            (Some(h), Some(m)) => {
                if h < 24 && m < 60 {
                    if cs[from] == '+' {
                        Some(h * 60 + m)
                    } else {
                        Some(-(h * 60 + m))
                    }
                } else {
                    None
                }
            },
            _ => None,
        }
    } else {
        None
    }
}

fn month_days(y: i64, m: i64) -> (r: i64)
    requires
        0 <= y,
    ensures
        r == month_length(y as int, m as int),
{
    if m == 2 {
        if y % 4 == 0 && (y % 100 != 0 || y % 400 == 0) {
            29
        } else {
            28
        }
    } else if m == 4 || m == 6 || m == 9 || m == 11 {
        30
    } else {
        31
    }
}

/// The days from 1970-01-01 to a date.
fn days_from_civil(y: i64, m: i64, d: i64) -> (r: i64)
    requires
        is_date(y as int, m as int, d as int),
        0 <= y <= 9_999,
    ensures
        r == day_number(y as int, m as int, d as int),
        -719_528 <= r <= 2_932_896,
{
    let common: i64 = if m <= 1 {
        0
    } else if m == 2 {
        31
    } else if m == 3 {
        59
    } else if m == 4 {
        90
    } else if m == 5 {
        120
    } else if m == 6 {
        151
    } else if m == 7 {
        181
    } else if m == 8 {
        212
    } else if m == 9 {
        243
    } else if m == 10 {
        273
    } else if m == 11 {
        304
    } else {
        334
    };
    let is_leap = y % 4 == 0 && (y % 100 != 0 || y % 400 == 0);
    let before: i64 = if m > 2 && is_leap {
        common + 1
    } else {
        common
    };
    let leaps: i64 = (y + 3) / 4 - (y + 99) / 100 + (y + 399) / 400;
    proof {
        within_year(y as int, m as int, d as int);
        if y < 9_999 {
            later_year(y as int, 9_999);
        }
        if 0 < y {
            later_year(0, y as int);
        }
        within_year(9_999, 12, 31);
        within_year(0, 12, 31);
    }
    365 * y + leaps + before + d - 1 - 719_528
}

proof fn shifted_by(x: int, d: int, k: int)
    requires
        d > 0,
    ensures
        (x - d * k) / d == x / d - k,
        (x - d * k) % d == x % d,
{
    vstd::arithmetic::div_mod::lemma_fundamental_div_mod(x, d);
    vstd::arithmetic::mul::lemma_mul_is_distributive_sub(d, x / d, k);
    vstd::arithmetic::div_mod::lemma_mod_bound(x, d);
    vstd::arithmetic::mul::lemma_mul_is_commutative(d, x / d - k);
    vstd::arithmetic::div_mod::lemma_fundamental_div_mod_converse(
        x - d * k,
        d,
        x / d - k,
        x % d,
    );
}

fn read_local_millis(cs: &Vec<char>, ms: Option<i64>) -> (r: Option<i64>)
    requires
        cs@.len() >= 19,
        cs@[4] == '-' && cs@[7] == '-' && cs@[10] == 'T' && cs@[13] == ':' && cs@[16] == ':',
        match ms {
            Some(n) => fraction(cs@, 19) == Some(n as int) && 0 <= n <= 999,
            None => fraction(cs@, 19) is None,
        },
    ensures
        match r {
            Some(n) => local_millis(cs@) == Some(n as int) && -62_167_219_200_000 <= n
                < 253_402_300_800_000,
            None => local_millis(cs@) is None,
        },
{
    let y = read_field(cs, 0, 4);
    let mo = read_field(cs, 5, 7);
    let d = read_field(cs, 8, 10);
    let h = read_field(cs, 11, 13);
    let mi = read_field(cs, 14, 16);
    let sec = read_field(cs, 17, 19);
    match (y, mo, d) {
        (Some(y), Some(mo), Some(d)) => match (h, mi, sec, ms) {
            (Some(h), Some(mi), Some(sec), Some(ms)) => {
                if 1 <= mo && mo <= 12 && 1 <= d && d <= month_days(y, mo) && h < 24 && mi < 60
                    && sec < 60 {
                    let days: i64 = days_from_civil(y, mo, d);
                    Some(days * 86_400_000 + h * 3_600_000 + mi * 60_000 + sec * 1_000 + ms)
                } else {
                    None
                }
            },
            _ => None,
        },
        _ => None,
    }
}

/// A timestamp in UTC with milliseconds; `None` when it is no timestamp.
pub fn normalize_timestamp(ts: &str) -> (r: Option<String>)
    ensures
        text::opt_text(r) == normalized(ts@),
{
    let s = text::trim(ts);
    let cs = text::chars_of(s);
    if cs.len() < 19 || cs[4] != '-' || cs[7] != '-' || cs[10] != 'T' || cs[13] != ':' || cs[16]
        != ':' {
        return None;
    }
    let (ms, end) = read_fraction(&cs, 19);
    let local = read_local_millis(&cs, ms);
    let ahead = read_zone(&cs, end);
    match (local, ahead) {
        (Some(t), Some(z)) => {
            let t: i64 = t - z * 60_000;
            // Counted from the day before the year 0, so that no quotient is
            // negative.
            let shifted: u64 = (t + 719_529 * 86_400_000) as u64;
            let days: i64 = (shifted / 86_400_000) as i64 - 719_529;
            proof {
                shifted_by(shifted as int, 86_400_000, 719_529);
                assert(shifted - 86_400_000 * 719_529 == t);
                assert(t as int / 86_400_000 == days);
                assert(t as int % 86_400_000 == shifted % 86_400_000);
            }
            if days >= -719_528 && days <= 2_932_896 {
                Some(write_day(days as i128, shifted % 86_400_000))
            } else {
                None
            }
        },
        _ => None,
    }
}

// ---------------------------------------------------------------------------
// Laws of reading
// ---------------------------------------------------------------------------

proof fn leading_zeros(k: int, s: Seq<char>)
    requires
        k >= 0,
        text::all_digits(s),
    ensures
        text::digits_value(zeros(k) + s) == text::digits_value(s),
        text::all_digits(zeros(k) + s),
    decreases k + s.len(),
{
    let all = zeros(k) + s;
    assert forall|i: int| 0 <= i < all.len() implies text::is_digit(#[trigger] all[i]) by {
        if i >= k {
            assert(text::is_digit(s[i - k]));
        }
    }
    if s.len() > 0 {
        assert forall|i: int| 0 <= i < s.drop_last().len() implies text::is_digit(
            #[trigger] s.drop_last()[i],
        ) by {
            assert(text::is_digit(s[i]));
        }
        leading_zeros(k, s.drop_last());
        assert(all.drop_last() =~= zeros(k) + s.drop_last());
    } else if k > 0 {
        leading_zeros(k - 1, s);
        assert(all.drop_last() =~= zeros(k - 1) + s);
    } else {
        assert(all =~= s);
    }
}

proof fn padded_reads_back(n: nat, width: nat)
    ensures
        text::digits_value(padded(n, width)) == n,
        text::all_digits(padded(n, width)),
        padded(n, width).len() > 0,
{
    text::decimal_reads_back(n);
    let k = width - text::decimal(n).len();
    if k >= 0 {
        leading_zeros(k, text::decimal(n));
    } else {
        assert(zeros(k) + text::decimal(n) =~= text::decimal(n));
    }
}

proof fn a_field_reads(s: Seq<char>, a: int, b: int, n: nat, width: nat)
    requires
        0 <= a <= b <= s.len(),
        s.subrange(a, b) == padded(n, width),
        n <= 9_999,
    ensures
        field(s, a, b) == Some(n as int),
{
    padded_reads_back(n, width);
}

proof fn digits_stop(s: Seq<char>, i: int, e: int)
    requires
        0 <= i <= e <= s.len(),
        forall|j: int| i <= j < e ==> text::is_digit(#[trigger] s[j]),
        e < s.len() ==> !text::is_digit(s[e]),
    ensures
        digits_end(s, i) == e,
    decreases e - i,
{
    if i < e {
        assert(text::is_digit(s[i]));
        digits_stop(s, i + 1, e);
    }
}

proof fn millis_add_up(ms: int)
    requires
        0 <= ms < 86_400_000,
    ensures
        ms == (ms / 3_600_000) * 3_600_000 + (ms / 60_000 % 60) * 60_000 + (ms / 1_000 % 60)
            * 1_000 + ms % 1_000,
        0 <= ms / 3_600_000 < 24,
        0 <= ms / 60_000 % 60 < 60,
        0 <= ms / 1_000 % 60 < 60,
        0 <= ms % 1_000 < 1_000,
{
    let s = ms / 1_000;
    let m = ms / 60_000;
    assert(m == s / 60);
    assert(ms / 3_600_000 == m / 60);
}

/// What was written of an instant, with whatever stands for its zone behind
/// it, is read as that instant's own date and time.
proof fn written_is_read(a: int, s: Seq<char>)
    requires
        -62_167_219_200_000 <= a < 253_402_300_800_000,
        s.len() >= 23,
        s.take(23) == written(a).take(23),
        s.len() > 23 ==> !text::is_digit(s[23]),
    ensures
        local_millis(s) == Some(a),
        fraction_end(s, 19) == 23,
{
    let days = a / 86_400_000;
    let ms = a % 86_400_000;
    let t = date_of(days);
    let f = fields_of(t, ms);
    let x = texts_of(f);
    written_fields(a);
    instants_have_a_shape(a);
    years_fit(days);
    millis_add_up(ms);
    let w = written(a);
    reveal_strlit("-");
    reveal_strlit("T");
    reveal_strlit(":");
    reveal_strlit(".");
    reveal_strlit("Z");
    assert("-"@.len() == 1 && "T"@.len() == 1 && ":"@.len() == 1 && "."@.len() == 1);
    assert("Z"@.len() == 1);
    assert(f[0] < room(field_width(0)) && f[1] < room(field_width(1)) && f[2] < room(field_width(2)));
    assert(f[3] < room(field_width(3)) && f[4] < room(field_width(4)) && f[5] < room(field_width(5)));
    assert(f[6] < room(field_width(6)));
    assert(x[0].len() == 4 && x[1].len() == 2 && x[2].len() == 2 && x[3].len() == 2);
    assert(x[4].len() == 2 && x[5].len() == 2 && x[6].len() == 3);
    assert forall|i: int| 0 <= i < 23 implies #[trigger] s[i] == w[i] by {
        assert(s.take(23)[i] == w.take(23)[i]);
    }
    assert(s.subrange(0, 4) =~= x[0]);
    assert(s.subrange(5, 7) =~= x[1]);
    assert(s.subrange(8, 10) =~= x[2]);
    assert(s.subrange(11, 13) =~= x[3]);
    assert(s.subrange(14, 16) =~= x[4]);
    assert(s.subrange(17, 19) =~= x[5]);
    assert(s.subrange(20, 23) =~= x[6]);
    a_field_reads(s, 0, 4, f[0], 4);
    a_field_reads(s, 5, 7, f[1], 2);
    a_field_reads(s, 8, 10, f[2], 2);
    a_field_reads(s, 11, 13, f[3], 2);
    a_field_reads(s, 14, 16, f[4], 2);
    a_field_reads(s, 17, 19, f[5], 2);
    padded_reads_back(f[6], 3);
    assert forall|j: int| 20 <= j < 23 implies text::is_digit(#[trigger] s[j]) by {
        assert(text::is_digit(w[j]));
    }
    digits_stop(s, 20, 23);
    assert(fraction(s, 19) == Some(f[6] as int));
    assert(a == days * 86_400_000 + ms);
}

/// What is written of an instant is read as that instant, and normalizing it
/// changes nothing.
pub proof fn instants_read_back(a: int)
    requires
        -62_167_219_200_000 <= a < 253_402_300_800_000,
    ensures
        instant(written(a)) == Some(a),
        normalized(written(a)) == Some(written(a)),
{
    let s = written(a);
    instants_have_a_shape(a);
    written_is_read(a, s);
    assert(text::is_digit(s[0]));
    text::trimmed_stays(s);
}

/// A time of another zone is that many hours and minutes earlier in UTC when
/// the zone is ahead, and later when it is behind.
pub proof fn zones_shift_instants(a: int, h: nat, m: nat, ahead: bool)
    requires
        -62_167_219_200_000 <= a < 253_402_300_800_000,
        h < 24,
        m < 60,
    ensures
        ({
            let sign = if ahead {
                '+'
            } else {
                '-'
            };
            let s = written(a).take(23) + seq![sign] + padded(h, 2) + seq![':'] + padded(m, 2);
            let t = if ahead {
                a - (h * 60 + m) * 60_000
            } else {
                a + (h * 60 + m) * 60_000
            };
            &&& instant(s) == Some(t)
            &&& -62_167_219_200_000 <= t < 253_402_300_800_000 ==> normalized(s) == Some(
                written(t),
            )
        }),
{
    let sign = if ahead {
        '+'
    } else {
        '-'
    };
    let w = written(a);
    instants_have_a_shape(a);
    padded_digits(h, 2);
    padded_digits(m, 2);
    let s = w.take(23) + seq![sign] + padded(h, 2) + seq![':'] + padded(m, 2);
    assert(s.len() == 29);
    assert(s.take(23) =~= w.take(23));
    assert(s[23] == sign);
    written_is_read(a, s);
    assert(s.subrange(24, 26) =~= padded(h, 2));
    assert(s.subrange(27, 29) =~= padded(m, 2));
    assert(s[26] == ':');
    a_field_reads(s, 24, 26, h, 2);
    a_field_reads(s, 27, 29, m, 2);
    assert(text::is_digit(w[0]) && s[0] == w[0]);
    spelled_digits(padded(m, 2), m, 2);
    assert(s[28] == padded(m, 2)[1]);
    assert(text::is_digit(padded(m, 2)[1]));
    text::trimmed_stays(s);
}

} // verus!
