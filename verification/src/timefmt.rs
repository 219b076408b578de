//! The persisted timestamp layout: `YYYY-MM-DDTHH:MM:SS`, second precision,
//! no timezone suffix (naive UTC), as the store's timestamp column holds it.

use vstd::prelude::*;

use vstd::arithmetic::div_mod::{lemma_fundamental_div_mod, lemma_fundamental_div_mod_converse};

use crate::calendar::Civil;
use crate::digest::{digit_char, digit_str};

verus! {

/// The numeric value of a decimal digit character, counted from `'0'`.
pub open spec fn digit_val(ch: char) -> int {
    ch as int - 48
}

/// Whether a character is a decimal digit.
pub open spec fn is_digit(ch: char) -> bool {
    48 <= ch as int <= 57
}

/// Two-digit zero-padded rendering of `n` in 0..=99.
pub open spec fn pad2(n: int) -> Seq<char> {
    seq![digit_char(n / 10), digit_char(n % 10)]
}

/// Four-digit zero-padded rendering of `n` in 0..=9999.
pub open spec fn pad4(n: int) -> Seq<char> {
    seq![
        digit_char(n / 1000),
        digit_char((n / 100) % 10),
        digit_char((n / 10) % 10),
        digit_char(n % 10),
    ]
}

/// The persisted text of a civil value.
pub open spec fn timestamp_text(c: Civil) -> Seq<char> {
    pad4(c.year as int) + seq!['-'] + pad2(c.month as int) + seq!['-'] + pad2(c.day as int)
        + seq!['T'] + pad2(c.hour as int) + seq![':'] + pad2(c.minute as int) + seq![':'] + pad2(
        c.second as int,
    )
}

/// The two-digit number at position `i` of `s`.
pub open spec fn num2(s: Seq<char>, i: int) -> int {
    10 * digit_val(s[i]) + digit_val(s[i + 1])
}

/// The four-digit number at position `i` of `s`.
pub open spec fn num4(s: Seq<char>, i: int) -> int {
    1000 * digit_val(s[i]) + 100 * digit_val(s[i + 1]) + 10 * digit_val(s[i + 2]) + digit_val(
        s[i + 3],
    )
}

/// The civil value spelled at the start of `s` (meaningful when `can_parse`).
pub open spec fn spelled_civil(s: Seq<char>) -> Civil {
    Civil {
        year: num4(s, 0) as u64,
        month: num2(s, 5) as u64,
        day: num2(s, 8) as u64,
        hour: num2(s, 11) as u64,
        minute: num2(s, 14) as u64,
        second: num2(s, 17) as u64,
    }
}

/// Whether `s` is the persisted text of some well-formed civil value: the
/// exact layout, digits and separators in place, and every field in range.
pub open spec fn can_parse(s: Seq<char>) -> bool {
    &&& s.len() == 19
    &&& is_digit(s[0]) && is_digit(s[1]) && is_digit(s[2]) && is_digit(s[3])
    &&& s[4] == '-'
    &&& is_digit(s[5]) && is_digit(s[6])
    &&& s[7] == '-'
    &&& is_digit(s[8]) && is_digit(s[9])
    &&& s[10] == 'T'
    &&& is_digit(s[11]) && is_digit(s[12])
    &&& s[13] == ':'
    &&& is_digit(s[14]) && is_digit(s[15])
    &&& s[16] == ':'
    &&& is_digit(s[17]) && is_digit(s[18])
    &&& spelled_civil(s).wf()
}

/// Appends the two-digit rendering of `n`.
fn push_pad2(s: &mut String, n: u64)
    requires
        n <= 99,
    ensures
        final(s)@ == old(s)@ + pad2(n as int),
{
    s.append(digit_str(n / 10));
    s.append(digit_str(n % 10));
    proof {
        assert(final(s)@ =~= old(s)@ + pad2(n as int));
    }
}

/// Renders a well-formed civil value in the persisted layout.
pub fn format_timestamp(c: &Civil) -> (r: String)
    requires
        c.wf(),
    ensures
        r@ == timestamp_text(*c),
{
    let mut out = String::new();
    out.append(digit_str(c.year / 1000));
    out.append(digit_str((c.year / 100) % 10));
    out.append(digit_str((c.year / 10) % 10));
    out.append(digit_str(c.year % 10));
    out.append("-");
    push_pad2(&mut out, c.month);
    out.append("-");
    push_pad2(&mut out, c.day);
    out.append("T");
    push_pad2(&mut out, c.hour);
    out.append(":");
    push_pad2(&mut out, c.minute);
    out.append(":");
    push_pad2(&mut out, c.second);
    proof {
        reveal_strlit("-");
        reveal_strlit("T");
        reveal_strlit(":");
        assert(out@ =~= timestamp_text(*c));
    }
    out
}

/// The digit value of a character, where it is one.
fn digit_of(ch: char) -> (r: Option<u64>)
    ensures
        r is Some <==> is_digit(ch),
        r matches Some(v) ==> v == digit_val(ch),
{
    let v = ch as u32;
    if 48 <= v && v <= 57 {
        Some((v - 48) as u64)
    } else {
        None
    }
}

/// Reads the two-digit number at position `i`; `None` where a character is
/// not a digit.
fn read2(s: &str, i: usize) -> (r: Option<u64>)
    requires
        i <= 17,
        i + 2 <= s@.len(),
    ensures
        r is Some <==> is_digit(s@[i as int]) && is_digit(s@[i + 1]),
        r matches Some(v) ==> v == num2(s@, i as int) && v <= 99,
{
    let a = match digit_of(s.get_char(i)) {
        Some(a) => a,
        None => {
            return None;
        },
    };
    let b = match digit_of(s.get_char(i + 1)) {
        Some(b) => b,
        None => {
            return None;
        },
    };
    Some(10 * a + b)
}

/// Parses the persisted layout: returns the spelled civil value exactly when
/// the text is the persisted form of a well-formed value, `None` otherwise.
pub fn parse_timestamp(s: &str) -> (r: Option<Civil>)
    ensures
        r is Some <==> can_parse(s@),
        r matches Some(c) ==> c == spelled_civil(s@) && c.wf(),
{
    if s.unicode_len() != 19 {
        return None;
    }
    let y_hi = match read2(s, 0) {
        Some(v) => v,
        None => {
            return None;
        },
    };
    let y_lo = match read2(s, 2) {
        Some(v) => v,
        None => {
            return None;
        },
    };
    if s.get_char(4) != '-' {
        return None;
    }
    let month = match read2(s, 5) {
        Some(v) => v,
        None => {
            return None;
        },
    };
    if s.get_char(7) != '-' {
        return None;
    }
    let day = match read2(s, 8) {
        Some(v) => v,
        None => {
            return None;
        },
    };
    if s.get_char(10) != 'T' {
        return None;
    }
    let hour = match read2(s, 11) {
        Some(v) => v,
        None => {
            return None;
        },
    };
    if s.get_char(13) != ':' {
        return None;
    }
    let minute = match read2(s, 14) {
        Some(v) => v,
        None => {
            return None;
        },
    };
    if s.get_char(16) != ':' {
        return None;
    }
    let second = match read2(s, 17) {
        Some(v) => v,
        None => {
            return None;
        },
    };
    let year = 100 * y_hi + y_lo;
    proof {
        assert(year == num4(s@, 0));
    }
    if !(1970 <= year && year <= 9999) {
        return None;
    }
    if !(1 <= month && month <= 12) {
        return None;
    }
    if !(1 <= day && day <= crate::calendar::days_in_month_of(year, month)) {
        return None;
    }
    if !(hour <= 23 && minute <= 59 && second <= 59) {
        return None;
    }
    Some(Civil { year, month, day, hour, minute, second })
}

/// Each digit place of a four-digit number spells its digit.
proof fn lemma_compose4(d0: int, d1: int, d2: int, d3: int)
    requires
        0 <= d0 < 10,
        0 <= d1 < 10,
        0 <= d2 < 10,
        0 <= d3 < 10,
    ensures
        (1000 * d0 + 100 * d1 + 10 * d2 + d3) / 1000 == d0,
        ((1000 * d0 + 100 * d1 + 10 * d2 + d3) / 100) % 10 == d1,
        ((1000 * d0 + 100 * d1 + 10 * d2 + d3) / 10) % 10 == d2,
        (1000 * d0 + 100 * d1 + 10 * d2 + d3) % 10 == d3,
{
    let y = 1000 * d0 + 100 * d1 + 10 * d2 + d3;
    lemma_fundamental_div_mod_converse(y, 1000, d0, 100 * d1 + 10 * d2 + d3);
    lemma_fundamental_div_mod_converse(y, 100, 10 * d0 + d1, 10 * d2 + d3);
    lemma_fundamental_div_mod_converse(10 * d0 + d1, 10, d0, d1);
    lemma_fundamental_div_mod_converse(y, 10, 100 * d0 + 10 * d1 + d2, d3);
    lemma_fundamental_div_mod_converse(100 * d0 + 10 * d1 + d2, 10, 10 * d0 + d1, d2);
}

/// The decimal digits of a four-digit number recompose to it.
proof fn lemma_decompose4(y: int)
    requires
        0 <= y < 10000,
    ensures
        y == 1000 * (y / 1000) + 100 * ((y / 100) % 10) + 10 * ((y / 10) % 10) + y % 10,
        0 <= y / 1000 < 10,
        0 <= (y / 100) % 10 < 10,
        0 <= (y / 10) % 10 < 10,
        0 <= y % 10 < 10,
{
    lemma_fundamental_div_mod(y, 1000);
    lemma_fundamental_div_mod(y % 1000, 100);
    lemma_fundamental_div_mod(y % 1000 % 100, 10);
    let d0 = y / 1000;
    let d1 = (y % 1000) / 100;
    let d2 = (y % 1000 % 100) / 10;
    let d3 = y % 1000 % 100 % 10;
    lemma_compose4(d0, d1, d2, d3);
}

/// The same for a two-digit number.
proof fn lemma_decompose2(n: int)
    requires
        0 <= n < 100,
    ensures
        n == 10 * (n / 10) + n % 10,
        0 <= n / 10 < 10,
        0 <= n % 10 < 10,
{
    lemma_fundamental_div_mod(n, 10);
}

/// A digit character spells its value back.
proof fn lemma_digit_val_of_char(d: int)
    requires
        0 <= d < 10,
    ensures
        digit_val(digit_char(d)) == d,
        is_digit(digit_char(d)),
{
}

/// The round-trip law of the persisted layout: the text of any well-formed
/// civil value parses, and parses back to the same value.
pub proof fn lemma_timestamp_roundtrip(c: Civil)
    requires
        c.wf(),
    ensures
        can_parse(timestamp_text(c)),
        spelled_civil(timestamp_text(c)) == c,
{
    let t = timestamp_text(c);
    let y = c.year as int;
    lemma_decompose4(y);
    lemma_decompose2(c.month as int);
    lemma_decompose2(c.day as int);
    lemma_decompose2(c.hour as int);
    lemma_decompose2(c.minute as int);
    lemma_decompose2(c.second as int);
    assert(t.len() == 19);
    lemma_digit_val_of_char(y / 1000);
    lemma_digit_val_of_char((y / 100) % 10);
    lemma_digit_val_of_char((y / 10) % 10);
    lemma_digit_val_of_char(y % 10);
    lemma_digit_val_of_char(c.month as int / 10);
    lemma_digit_val_of_char(c.month as int % 10);
    lemma_digit_val_of_char(c.day as int / 10);
    lemma_digit_val_of_char(c.day as int % 10);
    lemma_digit_val_of_char(c.hour as int / 10);
    lemma_digit_val_of_char(c.hour as int % 10);
    lemma_digit_val_of_char(c.minute as int / 10);
    lemma_digit_val_of_char(c.minute as int % 10);
    lemma_digit_val_of_char(c.second as int / 10);
    lemma_digit_val_of_char(c.second as int % 10);
    assert(t[0] == digit_char(y / 1000));
    assert(t[1] == digit_char((y / 100) % 10));
    assert(t[2] == digit_char((y / 10) % 10));
    assert(t[3] == digit_char(y % 10));
    assert(t[4] == '-');
    assert(t[5] == digit_char(c.month as int / 10));
    assert(t[6] == digit_char(c.month as int % 10));
    assert(t[7] == '-');
    assert(t[8] == digit_char(c.day as int / 10));
    assert(t[9] == digit_char(c.day as int % 10));
    assert(t[10] == 'T');
    assert(t[11] == digit_char(c.hour as int / 10));
    assert(t[12] == digit_char(c.hour as int % 10));
    assert(t[13] == ':');
    assert(t[14] == digit_char(c.minute as int / 10));
    assert(t[15] == digit_char(c.minute as int % 10));
    assert(t[16] == ':');
    assert(t[17] == digit_char(c.second as int / 10));
    assert(t[18] == digit_char(c.second as int % 10));
    assert(num4(t, 0) == y);
    assert(num2(t, 5) == c.month as int);
    assert(num2(t, 8) == c.day as int);
    assert(num2(t, 11) == c.hour as int);
    assert(num2(t, 14) == c.minute as int);
    assert(num2(t, 17) == c.second as int);
    assert(spelled_civil(t) == c);
}

} // verus!
