//! A plain-value model of the indexing timestamp: a Gregorian calendar date
//! with a time of day, second precision. The store hands timestamps to the
//! library as text of the fixed shape `YYYY-MM-DD HH:MM:SS` (a `T` separator
//! is accepted too); the library parses and renders that shape itself.

use vstd::prelude::*;

verus! {

/// A calendar timestamp. Valid values satisfy [`ts_valid`]: a real date of
/// years 0 through 9999 (the range the four-digit text shape can carry) and
/// a time of day.
#[derive(Debug, Clone, Copy, PartialEq, Eq, Structural)]
pub struct Timestamp {
    pub year: u32,
    pub month: u8,
    pub day: u8,
    pub hour: u8,
    pub minute: u8,
    pub second: u8,
}

pub open spec fn is_leap_year(y: int) -> bool {
    (y % 4 == 0 && y % 100 != 0) || y % 400 == 0
}

pub open spec fn days_in_month(y: int, m: int) -> int {
    if m == 2 {
        if is_leap_year(y) {
            29
        } else {
            28
        }
    } else if m == 4 || m == 6 || m == 9 || m == 11 {
        30
    } else {
        31
    }
}

pub open spec fn ts_valid(t: Timestamp) -> bool {
    &&& t.year <= 9999
    &&& 1 <= t.month <= 12
    &&& 1 <= t.day <= days_in_month(t.year as int, t.month as int)
    &&& t.hour < 24
    &&& t.minute < 60
    &&& t.second < 60
}

/// A strictly monotone encoding of a timestamp into one integer: later
/// timestamps (lexicographically by year, month, day, hour, minute, second)
/// have strictly larger keys. All window comparisons go through this key.
pub open spec fn ts_key(t: Timestamp) -> int {
    ((((t.year as int * 13 + t.month as int) * 32 + t.day as int) * 24 + t.hour as int) * 60
        + t.minute as int) * 60 + t.second as int
}

/// The key fits in u64 for every field assignment, so comparisons can be
/// computed without overflow.
pub fn ts_key_u64(t: &Timestamp) -> (k: u64)
    ensures
        k as int == ts_key(*t),
{
    ((((t.year as u64 * 13 + t.month as u64) * 32 + t.day as u64) * 24 + t.hour as u64) * 60
        + t.minute as u64) * 60 + t.second as u64
}

pub fn ts_lt(a: &Timestamp, b: &Timestamp) -> (r: bool)
    ensures
        r == (ts_key(*a) < ts_key(*b)),
{
    ts_key_u64(a) < ts_key_u64(b)
}

pub fn ts_le(a: &Timestamp, b: &Timestamp) -> (r: bool)
    ensures
        r == (ts_key(*a) <= ts_key(*b)),
{
    ts_key_u64(a) <= ts_key_u64(b)
}

fn days_in_month_u8(y: u32, m: u8) -> (r: u8)
    requires
        1 <= m <= 12,
    ensures
        r as int == days_in_month(y as int, m as int),
{
    if m == 2 {
        if (y % 4 == 0 && y % 100 != 0) || y % 400 == 0 {
            29
        } else {
            28
        }
    } else if m == 4 || m == 6 || m == 9 || m == 11 {
        30
    } else {
        31
    }
}

pub fn ts_valid_exec(t: &Timestamp) -> (r: bool)
    ensures
        r == ts_valid(*t),
{
    if t.year > 9999 || t.month < 1 || t.month > 12 {
        return false;
    }
    let dim = days_in_month_u8(t.year, t.month);
    1 <= t.day && t.day <= dim && t.hour < 24 && t.minute < 60 && t.second < 60
}

pub open spec fn digit_char(d: int) -> char {
    if d == 0 {
        '0'
    } else if d == 1 {
        '1'
    } else if d == 2 {
        '2'
    } else if d == 3 {
        '3'
    } else if d == 4 {
        '4'
    } else if d == 5 {
        '5'
    } else if d == 6 {
        '6'
    } else if d == 7 {
        '7'
    } else if d == 8 {
        '8'
    } else {
        '9'
    }
}

/// Two decimal digits, zero padded: the text of n for 0 <= n < 100.
pub open spec fn dec2(n: int) -> Seq<char> {
    seq![digit_char(n / 10 % 10), digit_char(n % 10)]
}

/// Four decimal digits, zero padded: the text of n for 0 <= n < 10000.
pub open spec fn dec4(n: int) -> Seq<char> {
    seq![
        digit_char(n / 1000 % 10),
        digit_char(n / 100 % 10),
        digit_char(n / 10 % 10),
        digit_char(n % 10),
    ]
}

/// The date part of a timestamp as text: `YYYY-MM-DD`.
pub open spec fn date_text(t: Timestamp) -> Seq<char> {
    dec4(t.year as int) + seq!['-'] + dec2(t.month as int) + seq!['-'] + dec2(t.day as int)
}

/// The canonical text of a whole timestamp: `YYYY-MM-DD HH:MM:SS`.
pub open spec fn ts_text(t: Timestamp) -> Seq<char> {
    date_text(t) + seq![' '] + dec2(t.hour as int) + seq![':'] + dec2(t.minute as int) + seq![':']
        + dec2(t.second as int)
}

fn digit_str(d: u8) -> (r: &'static str)
    requires
        d < 10,
    ensures
        r@ == seq![digit_char(d as int)],
{
    proof {
        reveal_strlit("0");
        reveal_strlit("1");
        reveal_strlit("2");
        reveal_strlit("3");
        reveal_strlit("4");
        reveal_strlit("5");
        reveal_strlit("6");
        reveal_strlit("7");
        reveal_strlit("8");
        reveal_strlit("9");
    }
    let r: &'static str = match d {
        0 => "0",
        1 => "1",
        2 => "2",
        3 => "3",
        4 => "4",
        5 => "5",
        6 => "6",
        7 => "7",
        8 => "8",
        _ => "9",
    };
    proof {
        assert(r@ =~= seq![digit_char(d as int)]);
    }
    r
}

fn push_dec2(s: &mut String, n: u8)
    requires
        n < 100,
    ensures
        final(s)@ == old(s)@ + dec2(n as int),
{
    s.append(digit_str(n / 10));
    s.append(digit_str(n % 10));
    proof {
        assert(s@ =~= old(s)@ + dec2(n as int));
    }
}

fn push_dec4(s: &mut String, n: u32)
    requires
        n < 10000,
    ensures
        final(s)@ == old(s)@ + dec4(n as int),
{
    s.append(digit_str((n / 1000) as u8));
    s.append(digit_str((n / 100 % 10) as u8));
    s.append(digit_str((n / 10 % 10) as u8));
    s.append(digit_str((n % 10) as u8));
    proof {
        assert(s@ =~= old(s)@ + dec4(n as int));
    }
}

/// Renders the date part of a timestamp as `YYYY-MM-DD`.
pub fn date_string(t: &Timestamp) -> (r: String)
    requires
        ts_valid(*t),
    ensures
        r@ == date_text(*t),
{
    proof {
        reveal_strlit("-");
    }
    let mut s = String::new();
    push_dec4(&mut s, t.year);
    s.append("-");
    push_dec2(&mut s, t.month);
    s.append("-");
    push_dec2(&mut s, t.day);
    proof {
        assert(s@ =~= date_text(*t));
    }
    s
}

/// Renders a timestamp in its canonical text shape, `YYYY-MM-DD HH:MM:SS`.
pub fn ts_string(t: &Timestamp) -> (r: String)
    requires
        ts_valid(*t),
    ensures
        r@ == ts_text(*t),
{
    proof {
        reveal_strlit(" ");
        reveal_strlit(":");
    }
    let mut s = date_string(t);
    s.append(" ");
    push_dec2(&mut s, t.hour);
    s.append(":");
    push_dec2(&mut s, t.minute);
    s.append(":");
    push_dec2(&mut s, t.second);
    proof {
        assert(s@ =~= ts_text(*t));
    }
    s
}

pub open spec fn is_digit_char(c: char) -> bool {
    48 <= c as u32 && c as u32 <= 57
}

/// The numeric value of a decimal digit character.
pub open spec fn dval(c: char) -> int {
    c as u32 - 48
}

/// Whether a character sequence has the exact shape `YYYY-MM-DD HH:MM:SS`
/// (or with `T` between date and time).
pub open spec fn ts_shape_ok(s: Seq<char>) -> bool {
    &&& s.len() == 19
    &&& is_digit_char(s[0])
    &&& is_digit_char(s[1])
    &&& is_digit_char(s[2])
    &&& is_digit_char(s[3])
    &&& s[4] == '-'
    &&& is_digit_char(s[5])
    &&& is_digit_char(s[6])
    &&& s[7] == '-'
    &&& is_digit_char(s[8])
    &&& is_digit_char(s[9])
    &&& (s[10] == ' ' || s[10] == 'T')
    &&& is_digit_char(s[11])
    &&& is_digit_char(s[12])
    &&& s[13] == ':'
    &&& is_digit_char(s[14])
    &&& is_digit_char(s[15])
    &&& s[16] == ':'
    &&& is_digit_char(s[17])
    &&& is_digit_char(s[18])
}

/// The timestamp spelled by a well-shaped character sequence.
pub open spec fn ts_of_text(s: Seq<char>) -> Timestamp {
    Timestamp {
        year: (dval(s[0]) * 1000 + dval(s[1]) * 100 + dval(s[2]) * 10 + dval(s[3])) as u32,
        month: (dval(s[5]) * 10 + dval(s[6])) as u8,
        day: (dval(s[8]) * 10 + dval(s[9])) as u8,
        hour: (dval(s[11]) * 10 + dval(s[12])) as u8,
        minute: (dval(s[14]) * 10 + dval(s[15])) as u8,
        second: (dval(s[17]) * 10 + dval(s[18])) as u8,
    }
}

/// What parsing returns: the spelled timestamp when the text is well shaped
/// and spells a valid timestamp, and nothing otherwise.
pub open spec fn parse_ts_spec(s: Seq<char>) -> Option<Timestamp> {
    if ts_shape_ok(s) && ts_valid(ts_of_text(s)) {
        Some(ts_of_text(s))
    } else {
        None
    }
}

fn digit_val(c: char) -> (r: Option<u8>)
    ensures
        r is Some <==> is_digit_char(c),
        r is Some ==> r.unwrap() as int == dval(c) && r.unwrap() < 10,
{
    let u = c as u32;
    if 48 <= u && u <= 57 {
        Some((u - 48) as u8)
    } else {
        None
    }
}

/// Parses the fixed-width timestamp shape `YYYY-MM-DD HH:MM:SS` (the
/// separator between date and time may also be `T`). Returns the timestamp
/// exactly when the text is well shaped and spells a valid calendar value.
pub fn parse_timestamp(s: &str) -> (r: Option<Timestamp>)
    ensures
        r == parse_ts_spec(s@),
{
    if s.unicode_len() != 19 {
        return None;
    }
    let d0 = match digit_val(s.get_char(0)) {
        Some(d) => d,
        None => { return None; },
    };
    let d1 = match digit_val(s.get_char(1)) {
        Some(d) => d,
        None => { return None; },
    };
    let d2 = match digit_val(s.get_char(2)) {
        Some(d) => d,
        None => { return None; },
    };
    let d3 = match digit_val(s.get_char(3)) {
        Some(d) => d,
        None => { return None; },
    };
    if s.get_char(4) != '-' {
        return None;
    }
    let d5 = match digit_val(s.get_char(5)) {
        Some(d) => d,
        None => { return None; },
    };
    let d6 = match digit_val(s.get_char(6)) {
        Some(d) => d,
        None => { return None; },
    };
    if s.get_char(7) != '-' {
        return None;
    }
    let d8 = match digit_val(s.get_char(8)) {
        Some(d) => d,
        None => { return None; },
    };
    let d9 = match digit_val(s.get_char(9)) {
        Some(d) => d,
        None => { return None; },
    };
    let sep = s.get_char(10);
    if sep != ' ' && sep != 'T' {
        return None;
    }
    let d11 = match digit_val(s.get_char(11)) {
        Some(d) => d,
        None => { return None; },
    };
    let d12 = match digit_val(s.get_char(12)) {
        Some(d) => d,
        None => { return None; },
    };
    if s.get_char(13) != ':' {
        return None;
    }
    let d14 = match digit_val(s.get_char(14)) {
        Some(d) => d,
        None => { return None; },
    };
    let d15 = match digit_val(s.get_char(15)) {
        Some(d) => d,
        None => { return None; },
    };
    if s.get_char(16) != ':' {
        return None;
    }
    let d17 = match digit_val(s.get_char(17)) {
        Some(d) => d,
        None => { return None; },
    };
    let d18 = match digit_val(s.get_char(18)) {
        Some(d) => d,
        None => { return None; },
    };
    let t = Timestamp {
        year: d0 as u32 * 1000 + d1 as u32 * 100 + d2 as u32 * 10 + d3 as u32,
        month: d5 * 10 + d6,
        day: d8 * 10 + d9,
        hour: d11 * 10 + d12,
        minute: d14 * 10 + d15,
        second: d17 * 10 + d18,
    };
    proof {
        assert(ts_shape_ok(s@));
        assert(t == ts_of_text(s@));
    }
    if ts_valid_exec(&t) {
        Some(t)
    } else {
        None
    }
}

/// The date of the day before t's date.
pub open spec fn prev_day_date(t: Timestamp) -> (int, int, int) {
    if t.day > 1 {
        (t.year as int, t.month as int, t.day as int - 1)
    } else if t.month > 1 {
        (t.year as int, t.month as int - 1, days_in_month(t.year as int, t.month as int - 1))
    } else {
        (t.year as int - 1, 12, 31)
    }
}

/// Midnight at the start of the day before t's day. This is what the default
/// export window starts at when t is the current time.
pub fn start_of_previous_day(t: &Timestamp) -> (r: Timestamp)
    requires
        ts_valid(*t),
        !(t.year == 0 && t.month == 1 && t.day == 1),
    ensures
        ts_valid(r),
        (r.year as int, r.month as int, r.day as int) == prev_day_date(*t),
        r.hour == 0 && r.minute == 0 && r.second == 0,
        ts_key(r) < ts_key(*t),
{
    let (y, m, d): (u32, u8, u8) = if t.day > 1 {
        (t.year, t.month, t.day - 1)
    } else if t.month > 1 {
        (t.year, t.month - 1, days_in_month_u8(t.year, t.month - 1))
    } else {
        (t.year - 1, 12, 31)
    };
    Timestamp { year: y, month: m, day: d, hour: 0, minute: 0, second: 0 }
}

/// Law: rendering a valid timestamp and parsing the text gives the same
/// timestamp back — the canonical text loses nothing.
pub proof fn lemma_parse_ts_round_trip(t: Timestamp)
    requires
        ts_valid(t),
    ensures
        parse_ts_spec(ts_text(t)) == Some(t),
{
    let s = ts_text(t);
    assert(s.len() == 19);
    lemma_digit_char_val(t.year as int / 1000 % 10);
    lemma_digit_char_val(t.year as int / 100 % 10);
    lemma_digit_char_val(t.year as int / 10 % 10);
    lemma_digit_char_val(t.year as int % 10);
    lemma_digit_char_val(t.month as int / 10 % 10);
    lemma_digit_char_val(t.month as int % 10);
    lemma_digit_char_val(t.day as int / 10 % 10);
    lemma_digit_char_val(t.day as int % 10);
    lemma_digit_char_val(t.hour as int / 10 % 10);
    lemma_digit_char_val(t.hour as int % 10);
    lemma_digit_char_val(t.minute as int / 10 % 10);
    lemma_digit_char_val(t.minute as int % 10);
    lemma_digit_char_val(t.second as int / 10 % 10);
    lemma_digit_char_val(t.second as int % 10);
    assert(ts_shape_ok(s));
    lemma_dec4_recompose(t.year as int);
    lemma_dec2_recompose(t.month as int);
    lemma_dec2_recompose(t.day as int);
    lemma_dec2_recompose(t.hour as int);
    lemma_dec2_recompose(t.minute as int);
    lemma_dec2_recompose(t.second as int);
    assert(ts_of_text(s) == t);
}

/// digit_char maps each value 0..9 to the matching digit character.
proof fn lemma_digit_char_val(d: int)
    requires
        0 <= d < 10,
    ensures
        is_digit_char(digit_char(d)),
        dval(digit_char(d)) == d,
{
}

/// A number below 100 is recomposed from its two decimal digits.
proof fn lemma_dec2_recompose(n: int)
    requires
        0 <= n < 100,
    ensures
        (n / 10 % 10) * 10 + n % 10 == n,
{
    assert(n / 10 < 10);
    assert(n / 10 % 10 == n / 10);
    assert((n / 10) * 10 + n % 10 == n) by (nonlinear_arith)
        requires 0 <= n < 100;
}

/// A number below 10000 is recomposed from its four decimal digits.
proof fn lemma_dec4_recompose(n: int)
    requires
        0 <= n < 10000,
    ensures
        (n / 1000 % 10) * 1000 + (n / 100 % 10) * 100 + (n / 10 % 10) * 10 + n % 10 == n,
{
    assert(n / 1000 % 10 == n / 1000);
    assert((n / 1000) * 1000 + n % 1000 == n) by (nonlinear_arith)
        requires 0 <= n < 10000;
    assert(n % 1000 / 100 == n / 100 % 10) by (nonlinear_arith)
        requires 0 <= n < 10000;
    assert(n % 1000 % 100 == n % 100) by (nonlinear_arith)
        requires 0 <= n < 10000;
    assert((n % 1000 / 100) * 100 + n % 1000 % 100 == n % 1000) by (nonlinear_arith)
        requires 0 <= n < 10000;
    assert(n % 100 / 10 == n / 10 % 10) by (nonlinear_arith)
        requires 0 <= n < 10000;
    assert((n % 100 / 10) * 10 + n % 100 % 10 == n % 100) by (nonlinear_arith)
        requires 0 <= n < 10000;
    assert(n % 100 % 10 == n % 10) by (nonlinear_arith)
        requires 0 <= n < 10000;
}

} // verus!
