use vstd::prelude::*;

verus! {

/// The decimal digit for `d`.
pub open spec fn digit(d: int) -> char {
    if d == 0 {
        '0'
    } else if d == 1 {
        '1'
    } else if d == 2 {
        '2'
    } else if d == 3 {
        '3'
    } else if d == 4 {
        '4'
    } else if d == 5 {
        '5'
    } else if d == 6 {
        '6'
    } else if d == 7 {
        '7'
    } else if d == 8 {
        '8'
    } else {
        '9'
    }
}

/// `n` written in decimal, without leading zeros.
pub open spec fn decimal(n: nat) -> Seq<char>
    decreases n,
{
    if n < 10 {
        seq![digit(n as int)]
    } else {
        decimal(n / 10).push(digit((n % 10) as int))
    }
}

/// `n` in decimal, at least two digits wide.
pub open spec fn pad2(n: nat) -> Seq<char> {
    if n < 10 {
        seq!['0', digit(n as int)]
    } else {
        decimal(n)
    }
}

pub open spec fn is_leap(y: nat) -> bool {
    (y % 4 == 0 && y % 100 != 0) || y % 400 == 0
}

pub open spec fn year_len(y: nat) -> nat {
    if is_leap(y) {
        366
    } else {
        365
    }
}

/// The year and the day within it (from 0) that lie `d` days after the
/// start of year `y`.
pub open spec fn year_and_day(y: nat, d: nat) -> (nat, nat)
    decreases d,
{
    if d < year_len(y) {
        (y, d)
    } else {
        year_and_day(y + 1, (d - year_len(y)) as nat)
    }
}

/// The number of days of month `m` (1 to 12) of year `y`.
pub open spec fn month_len(y: nat, m: nat) -> nat {
    if m == 2 {
        if is_leap(y) {
            29
        } else {
            28
        }
    } else if m == 4 || m == 6 || m == 9 || m == 11 {
        30
    } else {
        31
    }
}

/// The month and the day of the month (both from 1) of day `d` of year
/// `y`, counting from month `m`.
pub open spec fn month_and_day(y: nat, m: nat, d: nat) -> (nat, nat)
    decreases 12 - m,
{
    if m >= 12 || d < month_len(y, m) {
        (m, d + 1)
    } else {
        month_and_day(y, m + 1, (d - month_len(y, m)) as nat)
    }
}

/// `secs` seconds after the Unix epoch as `YYYY-MM-DD hh:mm:ss` in UTC.
pub open spec fn timestamp(secs: nat) -> Seq<char> {
    let (y, doy) = year_and_day(1970, secs / 86400);
    let (m, d) = month_and_day(y, 1, doy);
    let rem = secs % 86400;
    decimal(y) + seq!['-'] + pad2(m) + seq!['-'] + pad2(d) + seq![' '] + pad2(rem / 3600) + seq![':']
        + pad2(rem % 3600 / 60) + seq![':'] + pad2(rem % 60)
}

/// Relies on `SystemTime::elapsed` of the Unix epoch: the whole seconds
/// since then by the system clock (0 for a clock set before it).
#[verifier::external_body]
pub(crate) fn unix_now() -> (r: u64) {
    match std::time::UNIX_EPOCH.elapsed() {
        Ok(d) => d.as_secs(),
        Err(_) => 0,
    }
}

fn digit_of(d: u64) -> (r: char)
    requires
        d < 10,
    ensures
        r == digit(d as int),
{
    if d == 0 {
        '0'
    } else if d == 1 {
        '1'
    } else if d == 2 {
        '2'
    } else if d == 3 {
        '3'
    } else if d == 4 {
        '4'
    } else if d == 5 {
        '5'
    } else if d == 6 {
        '6'
    } else if d == 7 {
        '7'
    } else if d == 8 {
        '8'
    } else {
        '9'
    }
}

/// `n` in decimal.
pub fn decimal_of(n: u64) -> (r: Vec<char>)
    ensures
        r@ == decimal(n as nat),
    decreases n,
{
    if n < 10 {
        let mut v: Vec<char> = Vec::new();
        v.push(digit_of(n));
        assert(v@ =~= seq![digit(n as int)]);
        v
    } else {
        let mut v = decimal_of(n / 10);
        v.push(digit_of(n % 10));
        v
    }
}

/// `n` in decimal, at least two digits wide.
fn pad2_of(n: u64) -> (r: Vec<char>)
    ensures
        r@ == pad2(n as nat),
{
    if n < 10 {
        let mut v: Vec<char> = Vec::new();
        v.push('0');
        v.push(digit_of(n));
        assert(v@ =~= seq!['0', digit(n as int)]);
        v
    } else {
        decimal_of(n)
    }
}

fn is_leap_year(y: u64) -> (r: bool)
    ensures
        r == is_leap(y as nat),
{
    (y % 4 == 0 && y % 100 != 0) || y % 400 == 0
}

fn year_days(y: u64) -> (r: u64)
    ensures
        r == year_len(y as nat),
{
    if is_leap_year(y) {
        366
    } else {
        365
    }
}

fn month_days(y: u64, m: u64) -> (r: u64)
    ensures
        r == month_len(y as nat, m as nat),
{
    if m == 2 {
        if is_leap_year(y) {
            29
        } else {
            28
        }
    } else if m == 4 || m == 6 || m == 9 || m == 11 {
        30
    } else {
        31
    }
}

/// `secs` seconds after the Unix epoch as `YYYY-MM-DD hh:mm:ss` in UTC.
pub fn timestamp_of(secs: u64) -> (r: String)
    ensures
        r@ == timestamp(secs as nat),
{
    let days0 = secs / 86400;
    let mut y: u64 = 1970;
    let mut d: u64 = days0;
    while d >= year_days(y)
        invariant
            1970 <= y,
            d <= days0,
            (y - 1970) * 365 <= days0 - d,
            days0 <= u64::MAX / 86400,
            year_and_day(1970, days0 as nat) == year_and_day(y as nat, d as nat),
        decreases d,
    {
        d = d - year_days(y);
        y = y + 1;
    }
    let mut m: u64 = 1;
    let ghost doy = d;
    while m < 12 && d >= month_days(y, m)
        invariant
            1 <= m <= 12,
            d <= doy,
            doy <= u64::MAX / 86400,
            month_and_day(y as nat, 1, doy as nat) == month_and_day(y as nat, m as nat, d as nat),
        decreases 12 - m,
    {
        d = d - month_days(y, m);
        m = m + 1;
    }
    let rem = secs % 86400;
    let mut out = decimal_of(y);
    out.push('-');
    let mv = pad2_of(m);
    crate::text::append_chars(&mut out, &mv);
    out.push('-');
    crate::text::append_chars(&mut out, &pad2_of(d + 1));
    out.push(' ');
    crate::text::append_chars(&mut out, &pad2_of(rem / 3600));
    out.push(':');
    crate::text::append_chars(&mut out, &pad2_of(rem % 3600 / 60));
    out.push(':');
    crate::text::append_chars(&mut out, &pad2_of(rem % 60));
    crate::text::string_of(out.as_slice())
}

} // verus!
