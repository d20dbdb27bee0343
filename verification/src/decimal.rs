//! Decimal integers as text: the timestamp that crosses the process boundary
//! and the port numbers of the listener.
//!
//! A number is an optional sign followed by one or more of the digits `0` to
//! `9`, and nothing else: no spaces, no separators, no fraction.

use vstd::prelude::*;
use vstd::string::*;

verus! {

pub open spec fn is_digit(c: char) -> bool {
    '0' <= c <= '9'
}

pub open spec fn digit_value(c: char) -> nat {
    (c as int - '0' as int) as nat
}

pub open spec fn all_digits(text: Seq<char>) -> bool {
    forall|i: int| 0 <= i < text.len() ==> is_digit(#[trigger] text[i])
}

/// The number that a run of digits writes, most significant digit first.
pub open spec fn digits_value(digits: Seq<char>) -> nat
    decreases digits.len(),
{
    if digits.len() == 0 {
        0
    } else {
        digits_value(digits.drop_last()) * 10 + digit_value(digits.last())
    }
}

/// The number written by digits alone, if `digits` is such a run and is not
/// empty.
pub open spec fn magnitude(digits: Seq<char>) -> Option<nat> {
    if digits.len() > 0 && all_digits(digits) {
        Some(digits_value(digits))
    } else {
        None
    }
}

/// The integer that `text` writes: a `-` or a `+` may come first, digits make
/// up the rest.
pub open spec fn signed_decimal(text: Seq<char>) -> Option<int> {
    if text.len() > 0 && text[0] == '-' {
        match magnitude(text.skip(1)) {
            Some(m) => Some(-(m as int)),
            None => None,
        }
    } else if text.len() > 0 && text[0] == '+' {
        match magnitude(text.skip(1)) {
            Some(m) => Some(m as int),
            None => None,
        }
    } else {
        match magnitude(text) {
            Some(m) => Some(m as int),
            None => None,
        }
    }
}

/// The natural number that `text` writes: a `+` may come first, a `-` may not.
pub open spec fn unsigned_decimal(text: Seq<char>) -> Option<nat> {
    if text.len() > 0 && text[0] == '+' {
        magnitude(text.skip(1))
    } else {
        magnitude(text)
    }
}

/// What `text` is as a signed 64-bit integer, if it writes one that fits.
pub open spec fn decimal_i64(text: Seq<char>) -> Option<i64> {
    match signed_decimal(text) {
        Some(v) if i64::MIN <= v <= i64::MAX => Some(v as i64),
        _ => None,
    }
}

/// What `text` is as an unsigned 16-bit integer, if it writes one that fits.
pub open spec fn decimal_u16(text: Seq<char>) -> Option<u16> {
    match unsigned_decimal(text) {
        Some(v) if v <= u16::MAX => Some(v as u16),
        _ => None,
    }
}

/// A run of digits never writes less than any of its beginnings.
proof fn lemma_digits_value_grows(digits: Seq<char>, n: int)
    requires
        0 <= n <= digits.len(),
    ensures
        digits_value(digits.take(n)) <= digits_value(digits),
    decreases digits.len() - n,
{
    if n == digits.len() {
        assert(digits.take(n) =~= digits);
    } else {
        lemma_digits_value_grows(digits, n + 1);
        assert(digits.take(n + 1).drop_last() =~= digits.take(n));
    }
}

/// Reads the digits of an ASCII text from `start` to its end. Gives up on an
/// empty run, on anything that is not a digit, and on a number above `limit`.
fn parse_magnitude(text: &str, start: usize, limit: u64) -> (res: Option<u64>)
    requires
        is_ascii(text),
        start <= text@.len(),
        limit <= 0x8000_0000_0000_0000,
    ensures
        res == match magnitude(text@.skip(start as int)) {
            Some(m) if m <= limit => Some(m as u64),
            _ => None,
        },
{
    broadcast use is_ascii_spec_bytes;

    let bytes = text.as_bytes();
    let ghost digits = text@.skip(start as int);
    if start >= bytes.len() {
        return None;
    }
    let mut acc: u64 = 0;
    let mut i: usize = start;
    proof {
        assert(digits.take(0) =~= Seq::<char>::empty());
    }
    while i < bytes.len()
        invariant
            is_ascii(text),
            bytes@ == text.spec_bytes(),
            bytes@.len() == text@.len(),
            digits == text@.skip(start as int),
            start <= i <= bytes.len(),
            start < bytes.len(),
            limit <= 0x8000_0000_0000_0000,
            all_digits(digits.take(i - start)),
            acc == digits_value(digits.take(i - start)),
            acc <= limit,
        decreases bytes.len() - i,
    {
        let b = bytes[i];
        let ghost c = text@[i as int];
        proof {
            assert(bytes@[i as int] == c as u8);
            assert(digits[i - start] == c);
            assert(digits.take(i - start + 1).drop_last() =~= digits.take(i - start));
            assert(digits.take(i - start + 1).last() == c);
        }
        if b < 48 || b > 57 {
            proof {
                assert(!is_digit(c));
            }
            return None;
        }
        let d: u64 = (b - 48) as u64;
        proof {
            assert(is_digit(c));
            assert(d == digit_value(c));
            assert forall|j: int| 0 <= j < i - start + 1 implies is_digit(
                #[trigger] digits.take(i - start + 1)[j],
            ) by {
                if j < i - start {
                    assert(digits.take(i - start)[j] == digits.take(i - start + 1)[j]);
                }
            }
        }
        if d > limit || acc > (limit - d) / 10 {
            proof {
                assert(acc * 10 + d > limit);
                if all_digits(digits) {
                    lemma_digits_value_grows(digits, i - start + 1);
                }
            }
            return None;
        }
        acc = acc * 10 + d;
        i += 1;
    }
    proof {
        assert(digits.take(i - start) =~= digits);
    }
    Some(acc)
}

/// Reads a signed 64-bit integer. Succeeds exactly on an optional `+` or `-`
/// followed by one or more digits whose value fits.
pub fn parse_i64(text: &str) -> (res: Option<i64>)
    ensures
        res == decimal_i64(text@),
{
    broadcast use is_ascii_spec_bytes;

    if !text.is_ascii() {
        proof {
            lemma_not_ascii_not_decimal(text@);
        }
        return None;
    }
    let bytes = text.as_bytes();
    if bytes.len() == 0 {
        return None;
    }
    let first = bytes[0];
    proof {
        assert(bytes@[0] == text@[0] as u8);
    }
    if first == 45 {
        assert(text@[0] == '-');
        match parse_magnitude(text, 1, 0x8000_0000_0000_0000) {
            Some(m) => {
                if m == 0x8000_0000_0000_0000 {
                    Some(i64::MIN)
                } else {
                    Some(-(m as i64))
                }
            },
            None => None,
        }
    } else if first == 43 {
        assert(text@[0] == '+');
        match parse_magnitude(text, 1, 0x7fff_ffff_ffff_ffff) {
            Some(m) => Some(m as i64),
            None => None,
        }
    } else {
        assert(text@[0] != '+' && text@[0] != '-');
        assert(text@.skip(0) =~= text@);
        match parse_magnitude(text, 0, 0x7fff_ffff_ffff_ffff) {
            Some(m) => Some(m as i64),
            None => None,
        }
    }
}

/// Reads an unsigned 16-bit integer. Succeeds exactly on an optional `+`
/// followed by one or more digits whose value fits.
pub fn parse_u16(text: &str) -> (res: Option<u16>)
    ensures
        res == decimal_u16(text@),
{
    broadcast use is_ascii_spec_bytes;

    if !text.is_ascii() {
        proof {
            lemma_not_ascii_not_decimal(text@);
        }
        return None;
    }
    let bytes = text.as_bytes();
    if bytes.len() == 0 {
        return None;
    }
    let first = bytes[0];
    proof {
        assert(bytes@[0] == text@[0] as u8);
        assert(text@.skip(0) =~= text@);
    }
    let start: usize = if first == 43 {
        1
    } else {
        0
    };
    assert(first == 43 <==> text@[0] == '+');
    match parse_magnitude(text, start, 0xffff) {
        Some(m) => Some(m as u16),
        None => None,
    }
}

/// A text with a character outside ASCII writes no number.
proof fn lemma_not_ascii_not_decimal(text: Seq<char>)
    requires
        !vstd::utf8::is_ascii_chars(text),
    ensures
        signed_decimal(text) is None,
        unsigned_decimal(text) is None,
{
    let i = choose|i: int| 0 <= i < text.len() && !('\0' <= #[trigger] text[i] <= '\u{7f}');
    assert(!is_digit(text[i]));
    if i > 0 {
        assert(text.skip(1)[i - 1] == text[i]);
    }
}

/// The character that writes the digit `d`, for `d` below ten.
pub open spec fn digit_char(d: nat) -> char {
    ('0' as int + d) as char
}

/// The digits of `n`, most significant first, without leading zeros; zero is
/// written `0`.
pub open spec fn digits_of(n: nat) -> Seq<char>
    decreases n,
{
    if n < 10 {
        seq![digit_char(n)]
    } else {
        digits_of(n / 10).push(digit_char(n % 10))
    }
}

/// How an integer is written: its digits, after a `-` if it is negative.
pub open spec fn decimal_text(value: int) -> Seq<char> {
    if value < 0 {
        seq!['-'] + digits_of((-value) as nat)
    } else {
        digits_of(value as nat)
    }
}

fn digit_text(d: u64) -> (text: &'static str)
    requires
        d < 10,
    ensures
        text@ == seq![digit_char(d as nat)],
{
    proof {
        reveal_strlit("0");
        reveal_strlit("1");
        reveal_strlit("2");
        reveal_strlit("3");
        reveal_strlit("4");
        reveal_strlit("5");
        reveal_strlit("6");
        reveal_strlit("7");
        reveal_strlit("8");
        reveal_strlit("9");
    }
    let text = if d == 0 {
        "0"
    } else if d == 1 {
        "1"
    } else if d == 2 {
        "2"
    } else if d == 3 {
        "3"
    } else if d == 4 {
        "4"
    } else if d == 5 {
        "5"
    } else if d == 6 {
        "6"
    } else if d == 7 {
        "7"
    } else if d == 8 {
        "8"
    } else {
        "9"
    };
    assert(text@ =~= seq![digit_char(d as nat)]);
    text
}

fn append_digits(out: &mut String, n: u64)
    ensures
        final(out)@ == old(out)@ + digits_of(n as nat),
    decreases n,
{
    if n >= 10 {
        append_digits(out, n / 10);
    }
    out.append(digit_text(n % 10));
    proof {
        let before = old(out)@;
        if n >= 10 {
            assert(before + digits_of((n / 10) as nat) + seq![digit_char((n % 10) as nat)] =~= before
                + digits_of(n as nat));
        }
    }
}

/// Writes a signed 64-bit integer in decimal: digits without leading zeros,
/// after a `-` if the integer is negative.
pub fn format_i64(value: i64) -> (text: String)
    ensures
        text@ == decimal_text(value as int),
{
    let mut text = String::new();
    if value < 0 {
        proof {
            reveal_strlit("-");
        }
        text.append("-");
        let m: u64 = if value == i64::MIN {
            0x8000_0000_0000_0000
        } else {
            (-value) as u64
        };
        append_digits(&mut text, m);
        assert(text@ =~= seq!['-'] + digits_of((-value) as nat));
    } else {
        append_digits(&mut text, value as u64);
        assert(text@ =~= digits_of(value as nat));
    }
    text
}

/// The digits of a number are digits, at least one of them, and write that
/// number.
pub proof fn lemma_digits_of_value(n: nat)
    ensures
        digits_of(n).len() > 0,
        all_digits(digits_of(n)),
        digits_value(digits_of(n)) == n,
    decreases n,
{
    if n < 10 {
        let one = seq![digit_char(n)];
        assert(one.drop_last() =~= Seq::<char>::empty());
        assert(digits_value(one.drop_last()) == 0);
        assert(one.last() == digit_char(n));
    } else {
        lemma_digits_of_value(n / 10);
        let front = digits_of(n / 10);
        let all = front.push(digit_char(n % 10));
        assert(all.drop_last() =~= front);
        assert forall|i: int| 0 <= i < all.len() implies is_digit(#[trigger] all[i]) by {
            if i < front.len() {
                assert(all[i] == front[i]);
            }
        }
    }
}

/// Writing an integer and reading the text back gives the integer: what one
/// program writes as its argument, the other reads as the same timestamp.
pub proof fn lemma_decimal_round_trip(value: int)
    ensures
        signed_decimal(decimal_text(value)) == Some(value),
        i64::MIN <= value <= i64::MAX ==> decimal_i64(decimal_text(value)) == Some(value as i64),
{
    if value < 0 {
        let m = (-value) as nat;
        lemma_digits_of_value(m);
        assert(decimal_text(value).skip(1) =~= digits_of(m));
    } else {
        let m = value as nat;
        lemma_digits_of_value(m);
        assert(is_digit(digits_of(m)[0]));
    }
}

} // verus!
