//! Civil dates from Unix timestamps, and the two fixed timestamp formats
//! the exporters stamp rows with.
//!
//! The decomposition is specified by walking years and months from the
//! epoch; the executable code follows the same walk, so each formatted
//! string is pinned down exactly.

use vstd::prelude::*;

verus! {

/// A Gregorian leap year.
pub open spec fn is_leap(y: int) -> bool {
    y % 4 == 0 && (y % 100 != 0 || y % 400 == 0)
}

/// Days in a year.
pub open spec fn days_in_year(y: int) -> int {
    if is_leap(y) {
        366
    } else {
        365
    }
}

/// Days in a month, January as 1.
pub open spec fn days_in_month(y: int, m: int) -> int {
    if m == 2 {
        if is_leap(y) {
            29
        } else {
            28
        }
    } else if m == 4 || m == 6 || m == 9 || m == 11 {
        30
    } else {
        31
    }
}

/// Walk whole years off a day count, starting at `y`.
pub open spec fn year_walk(y: int, days: int) -> (int, int)
    decreases days when days >= 0
{
    if 0 <= days < days_in_year(y) {
        (y, days)
    } else if days >= days_in_year(y) {
        year_walk(y + 1, days - days_in_year(y))
    } else {
        (y, days)
    }
}

/// Walk whole months off a day count, starting at month `m` of year `y`.
pub open spec fn month_walk(y: int, m: int, days: int) -> (int, int)
    decreases 12 - m when m <= 12
{
    if m >= 12 || 0 <= days < days_in_month(y, m) {
        (m, days)
    } else if days >= days_in_month(y, m) {
        month_walk(y, m + 1, days - days_in_month(y, m))
    } else {
        (m, days)
    }
}

/// The civil date of a day count since the epoch: year, month and day.
pub open spec fn civil_of_days(days: int) -> (int, int, int) {
    let (y, rest) = year_walk(1970, days);
    let (m, rest2) = month_walk(y, 1, rest);
    (y, m, rest2 + 1)
}

/// Days from the epoch to the start of year `y`.
pub open spec fn days_to_year(y: int) -> int
    decreases y - 1970 when y >= 1970
{
    if y <= 1970 {
        0
    } else {
        days_to_year(y - 1) + days_in_year(y - 1)
    }
}

/// Days from the start of the year to the start of month `m`.
pub open spec fn days_to_month(y: int, m: int) -> int
    decreases m when m >= 1
{
    if m <= 1 {
        0
    } else {
        days_to_month(y, m - 1) + days_in_month(y, m - 1)
    }
}

/// The day count a calendar date stands for.
pub open spec fn day_number(y: int, m: int, d: int) -> int {
    days_to_year(y) + days_to_month(y, m) + (d - 1)
}

/// The year walk lands inside a year and accounts for every day.
proof fn lemma_year_walk_inverse(y0: int, days: int)
    requires
        y0 >= 1970,
        days >= 0,
    ensures
        ({
            let (y, rest) = year_walk(y0, days);
            &&& y >= y0
            &&& 0 <= rest < days_in_year(y)
            &&& days_to_year(y) - days_to_year(y0) + rest == days
        }),
    decreases days,
{
    if days >= days_in_year(y0) {
        lemma_year_walk_inverse(y0 + 1, days - days_in_year(y0));
    }
}

/// The month walk lands inside a month and accounts for every day.
proof fn lemma_month_walk_inverse(y: int, m0: int, days: int)
    requires
        1 <= m0 <= 12,
        0 <= days,
        days_to_month(y, m0) + days < days_in_year(y),
    ensures
        ({
            let (m, rest) = month_walk(y, m0, days);
            &&& m0 <= m <= 12
            &&& 0 <= rest < days_in_month(y, m)
            &&& days_to_month(y, m) - days_to_month(y, m0) + rest == days
        }),
    decreases 12 - m0,
{
    if m0 < 12 && days >= days_in_month(y, m0) {
        lemma_month_walk_inverse(y, m0 + 1, days - days_in_month(y, m0));
    } else if m0 >= 12 {
        assert(days_to_month(y, 13) == days_in_year(y)) by {
            reveal_with_fuel(days_to_month, 14);
        }
    }
}

/// The decomposition is the inverse of day counting: the civil date of a
/// day count is a date the calendar has, and counting its days from the
/// epoch gives the day count back.
pub proof fn lemma_civil_of_days_inverse(days: int)
    requires
        days >= 0,
    ensures
        ({
            let (y, m, d) = civil_of_days(days);
            &&& y >= 1970
            &&& date_ok(y, m, d)
            &&& day_number(y, m, d) == days
        }),
{
    lemma_year_walk_inverse(1970, days);
    let (y, rest) = year_walk(1970, days);
    lemma_month_walk_inverse(y, 1, rest);
}

/// The decimal digits of a number, most significant first.
pub open spec fn dec_digits(n: int) -> Seq<char>
    decreases n when n >= 0
{
    if n < 10 {
        seq![digit_char(n)]
    } else {
        dec_digits(n / 10) + seq![digit_char(n % 10)]
    }
}

/// The character of one decimal digit.
pub open spec fn digit_char(d: int) -> char {
    if d == 0 {
        '0'
    } else if d == 1 {
        '1'
    } else if d == 2 {
        '2'
    } else if d == 3 {
        '3'
    } else if d == 4 {
        '4'
    } else if d == 5 {
        '5'
    } else if d == 6 {
        '6'
    } else if d == 7 {
        '7'
    } else if d == 8 {
        '8'
    } else {
        '9'
    }
}

/// A number padded with zeros to at least two digits.
pub open spec fn pad2(n: int) -> Seq<char> {
    if n < 10 {
        seq!['0'] + dec_digits(n)
    } else {
        dec_digits(n)
    }
}

/// A number padded with zeros to at least four digits.
pub open spec fn pad4(n: int) -> Seq<char> {
    if n < 10 {
        seq!['0', '0', '0'] + dec_digits(n)
    } else if n < 100 {
        seq!['0', '0'] + dec_digits(n)
    } else if n < 1000 {
        seq!['0'] + dec_digits(n)
    } else {
        dec_digits(n)
    }
}

/// The compact timestamp the exporters use as an action code:
/// year, month, day, hour, minute and second, each zero-padded.
pub open spec fn action_code_spec(ts: int) -> Seq<char> {
    let days = ts / 86400;
    let rem = ts % 86400;
    let (y, m, d) = civil_of_days(days);
    pad4(y) + pad2(m) + pad2(d) + pad2(rem / 3600) + pad2((rem % 3600) / 60) + pad2(rem % 60)
}

/// The human timestamp the exporters use as a created-at column:
/// day/month/year hour:minute.
pub open spec fn created_datetime_spec(ts: int) -> Seq<char> {
    let days = ts / 86400;
    let rem = ts % 86400;
    let (y, m, d) = civil_of_days(days);
    pad2(d) + seq!['/'] + pad2(m) + seq!['/'] + pad4(y) + seq![' '] + pad2(rem / 3600) + seq![':']
        + pad2((rem % 3600) / 60)
}

/// Whether this year is a Gregorian leap year.
pub fn leap_year(y: u64) -> (r: bool)
    ensures
        r == is_leap(y as int),
{
    y % 4 == 0 && (y % 100 != 0 || y % 400 == 0)
}

/// The length of a month of this year.
pub fn month_len(y: u64, m: u64) -> (r: u64)
    ensures
        r == days_in_month(y as int, m as int),
{
    if m == 2 {
        if leap_year(y) {
            29
        } else {
            28
        }
    } else if m == 4 || m == 6 || m == 9 || m == 11 {
        30
    } else {
        31
    }
}

/// The civil date of a day count since the epoch.
pub fn civil_from_days(days: u64) -> (r: (u64, u64, u64))
    ensures
        (r.0 as int, r.1 as int, r.2 as int) == civil_of_days(days as int),
        1 <= r.1 <= 12,
        1 <= r.2 <= 31,
{
    let ghost d0 = days as int;
    let mut y: u64 = 1970;
    let mut rem: u64 = days;
    let mut ylen: u64 = if leap_year(y) {
        366
    } else {
        365
    };
    while rem >= ylen
        invariant
            1970 <= y,
            0 <= d0 <= u64::MAX,
            365 * (y - 1970) + rem <= d0,
            ylen == days_in_year(y as int),
            year_walk(1970, d0) == year_walk(y as int, rem as int),
        decreases rem,
    {
        rem = rem - ylen;
        y = y + 1;
        ylen = if leap_year(y) {
            366
        } else {
            365
        };
    }
    proof {
        assert(year_walk(y as int, rem as int) == (y as int, rem as int));
    }
    let mut m: u64 = 1;
    let mut mlen: u64 = month_len(y, m);
    while m < 12 && rem >= mlen
        invariant
            1 <= m <= 12,
            rem < days_in_year(y as int),
            mlen == days_in_month(y as int, m as int),
            month_walk(y as int, 1, year_walk(1970, d0).1) == month_walk(
                y as int,
                m as int,
                rem as int,
            ),
            y as int == year_walk(1970, d0).0,
        decreases 12 - m,
    {
        rem = rem - mlen;
        m = m + 1;
        mlen = month_len(y, m);
    }
    proof {
        assert(month_walk(y as int, m as int, rem as int) == (m as int, rem as int));
        if m == 12 {
            assert(rem < 31) by {
                reveal_with_fuel(month_walk, 13);
            }
        }
    }
    (y, m, rem + 1)
}

/// The decimal digits of a number, most significant first.
pub fn render_u64(n: u64) -> (r: Vec<char>)
    ensures
        r@ == dec_digits(n as int),
    decreases n,
{
    if n < 10 {
        let c = digit_of(n);
        let mut v: Vec<char> = Vec::new();
        v.push(c);
        proof {
            assert(v@ =~= seq![digit_char(n as int)]);
        }
        v
    } else {
        let mut v = render_u64(n / 10);
        let c = digit_of(n % 10);
        v.push(c);
        proof {
            assert(v@ =~= dec_digits(n as int / 10) + seq![digit_char(n as int % 10)]);
        }
        v
    }
}

/// The character of one decimal digit.
pub fn digit_of(d: u64) -> (r: char)
    requires
        d < 10,
    ensures
        r == digit_char(d as int),
{
    if d == 0 {
        '0'
    } else if d == 1 {
        '1'
    } else if d == 2 {
        '2'
    } else if d == 3 {
        '3'
    } else if d == 4 {
        '4'
    } else if d == 5 {
        '5'
    } else if d == 6 {
        '6'
    } else if d == 7 {
        '7'
    } else if d == 8 {
        '8'
    } else {
        '9'
    }
}

/// The number, zero-padded to at least two digits.
pub fn render_pad2(n: u64) -> (r: Vec<char>)
    ensures
        r@ == pad2(n as int),
{
    if n < 10 {
        let mut v: Vec<char> = Vec::new();
        v.push('0');
        let c = digit_of(n);
        v.push(c);
        proof {
            assert(v@ =~= seq!['0'] + dec_digits(n as int));
        }
        v
    } else {
        render_u64(n)
    }
}

/// The number, zero-padded to at least four digits.
pub fn render_pad4(n: u64) -> (r: Vec<char>)
    ensures
        r@ == pad4(n as int),
{
    let digits = render_u64(n);
    let mut v: Vec<char> = Vec::new();
    if n < 10 {
        v.push('0');
        v.push('0');
        v.push('0');
    } else if n < 100 {
        v.push('0');
        v.push('0');
    } else if n < 1000 {
        v.push('0');
    }
    let mut i: usize = 0;
    let ghost zeros = v@;
    while i < digits.len()
        invariant
            i <= digits@.len(),
            v@ == zeros + digits@.take(i as int),
        decreases digits@.len() - i,
    {
        v.push(digits[i]);
        i += 1;
        proof {
            assert(v@ =~= zeros + digits@.take(i as int));
        }
    }
    proof {
        assert(digits@.take(digits@.len() as int) =~= digits@);
        if n >= 1000 {
            assert(v@ =~= digits@);
        }
    }
    v
}

/// The decimal rendering of a signed number: a minus sign for a
/// negative one, then its digits.
pub open spec fn dec_int_digits(n: int) -> Seq<char> {
    if n < 0 {
        seq!['-'] + dec_digits(-n)
    } else {
        dec_digits(n)
    }
}

/// Render a signed number in decimal.
pub fn render_i64(n: i64) -> (r: Vec<char>)
    ensures
        r@ == dec_int_digits(n as int),
{
    if n >= 0 {
        render_u64(n as u64)
    } else {
        let mag: u64 = ((-(n + 1)) as u64) + 1;
        proof {
            assert(mag == -(n as int));
        }
        let mut v: Vec<char> = Vec::new();
        v.push('-');
        let mut digits = render_u64(mag);
        v.append(&mut digits);
        proof {
            assert(v@ =~= seq!['-'] + dec_digits(mag as int));
        }
        v
    }
}

/// A calendar date as plain values.
#[derive(Debug, Clone, Copy, PartialEq, Eq, Structural)]
pub struct CivilDate {
    pub year: u32,
    pub month: u8,
    pub day: u8,
}

/// A date the calendar has.
pub open spec fn date_ok(y: int, m: int, d: int) -> bool {
    1 <= m <= 12 && 1 <= d <= days_in_month(y, m)
}

/// The digit value of a character.
pub open spec fn digit_val(c: char) -> int {
    c as int - '0' as int
}

/// True when the text is a month-day-year date, two digits, two digits
/// and four digits separated by dashes, naming a date the calendar has.
pub open spec fn mdy_ok(s: Seq<char>) -> bool {
    &&& s.len() == 10
    &&& '0' <= s[0] <= '9' && '0' <= s[1] <= '9'
    &&& s[2] == '-'
    &&& '0' <= s[3] <= '9' && '0' <= s[4] <= '9'
    &&& s[5] == '-'
    &&& '0' <= s[6] <= '9' && '0' <= s[7] <= '9' && '0' <= s[8] <= '9' && '0' <= s[9] <= '9'
    &&& date_ok(mdy_year(s), mdy_month(s), mdy_day(s))
}

/// The month the text names.
pub open spec fn mdy_month(s: Seq<char>) -> int {
    digit_val(s[0]) * 10 + digit_val(s[1])
}

/// The day the text names.
pub open spec fn mdy_day(s: Seq<char>) -> int {
    digit_val(s[3]) * 10 + digit_val(s[4])
}

/// The year the text names.
pub open spec fn mdy_year(s: Seq<char>) -> int {
    digit_val(s[6]) * 1000 + digit_val(s[7]) * 100 + digit_val(s[8]) * 10 + digit_val(s[9])
}

/// Parse a month-day-year release date, exactly when the text has that
/// shape and names a date the calendar has.
pub fn parse_mdy(s: &str) -> (r: Option<CivilDate>)
    ensures
        match r {
            Some(d) => mdy_ok(s@) && d.year == mdy_year(s@) && d.month == mdy_month(s@)
                && d.day == mdy_day(s@),
            None => !mdy_ok(s@),
        },
{
    let v = crate::text::chars_of(s);
    if v.len() != 10 {
        return None;
    }
    let mut i: usize = 0;
    while i < 10
        invariant
            i <= 10,
            v@ == s@,
            v@.len() == 10,
            forall|j: int| 0 <= j < i && j != 2 && j != 5 ==> '0' <= #[trigger] v@[j] <= '9',
            forall|j: int| 0 <= j < i && (j == 2 || j == 5) ==> v@[j] == '-',
        decreases 10 - i,
    {
        let c = v[i];
        if i == 2 || i == 5 {
            if c != '-' {
                return None;
            }
        } else {
            if c < '0' || c > '9' {
                return None;
            }
        }
        i += 1;
    }
    let d0 = (v[0] as u32) - ('0' as u32);
    let d1 = (v[1] as u32) - ('0' as u32);
    let d3 = (v[3] as u32) - ('0' as u32);
    let d4 = (v[4] as u32) - ('0' as u32);
    let d6 = (v[6] as u32) - ('0' as u32);
    let d7 = (v[7] as u32) - ('0' as u32);
    let d8 = (v[8] as u32) - ('0' as u32);
    let d9 = (v[9] as u32) - ('0' as u32);
    let month = d0 * 10 + d1;
    let day = d3 * 10 + d4;
    let year = d6 * 1000 + d7 * 100 + d8 * 10 + d9;
    if month < 1 || month > 12 {
        return None;
    }
    if day < 1 || day > month_len(year as u64, month as u64) as u32 {
        return None;
    }
    Some(CivilDate { year, month: month as u8, day: day as u8 })
}

} // verus!
