use crate::tabular::{chars_of, drop_space, drop_spaces, skip_space, skip_spaces};
use vstd::prelude::*;
use vstd::string::*;

verus! {

/// Whether `c` has the Unicode property White_Space.
pub open spec fn is_white_space(c: char) -> bool {
    let n = c as u32;
    ||| 0x09 <= n <= 0x0D
    ||| n == 0x20
    ||| n == 0x85
    ||| n == 0xA0
    ||| n == 0x1680
    ||| 0x2000 <= n <= 0x200A
    ||| n == 0x2028
    ||| n == 0x2029
    ||| n == 0x202F
    ||| n == 0x205F
    ||| n == 0x3000
}

/// `s` without leading and trailing white space.
pub open spec fn trimmed(s: Seq<char>) -> Seq<char> {
    let start = skip_space(s, 0, s.len() as int);
    s.subrange(start, drop_space(s, start, s.len() as int))
}

/// The text without leading and trailing white space.
pub fn trim(s: &str) -> (r: &str)
    ensures
        r@ == trimmed(s@),
{
    let chars = chars_of(s);
    let start = skip_spaces(&chars, 0, chars.len());
    let end = drop_spaces(&chars, start, chars.len());
    s.substring_char(start, end)
}

/// The lower-case form of a text, as `str::to_lowercase` computes it.
pub uninterp spec fn lowercase(s: Seq<char>) -> Seq<char>;

/// Calls `str::to_lowercase` of the standard library. The result is a
/// function of the characters of `s` alone; it is named, not described.
#[verifier::external_body]
pub(crate) fn to_lowercase(s: &str) -> (r: String)
    ensures
        r@ == lowercase(s@),
{
    s.to_lowercase()
}

/// Calls `String::push` of the standard library, which appends `c`.
#[verifier::external_body]
pub(crate) fn push_char(s: &mut String, c: char)
    ensures
        final(s)@ == old(s)@.push(c),
{
    s.push(c)
}

/// Whether two texts hold the same characters.
pub fn str_eq(a: &str, b: &str) -> (r: bool)
    ensures
        r == (a@ == b@),
{
    let x = a.to_owned();
    let y = b.to_owned();
    x == y
}

/// The character of the decimal digit `d`.
pub open spec fn digit_char(d: nat) -> char
    recommends
        d < 10,
{
    if d == 0 {
        '0'
    } else if d == 1 {
        '1'
    } else if d == 2 {
        '2'
    } else if d == 3 {
        '3'
    } else if d == 4 {
        '4'
    } else if d == 5 {
        '5'
    } else if d == 6 {
        '6'
    } else if d == 7 {
        '7'
    } else if d == 8 {
        '8'
    } else {
        '9'
    }
}

/// The decimal digits of `n`, without leading zeros.
pub open spec fn digits(n: nat) -> Seq<char>
    decreases n,
{
    if n < 10 {
        seq![digit_char(n)]
    } else {
        digits(n / 10).push(digit_char(n % 10))
    }
}

/// The decimal text of a signed whole number: a minus sign before the
/// digits of a negative number, nothing before the others.
pub open spec fn int_text(n: int) -> Seq<char> {
    if n < 0 {
        seq!['-'] + digits((-n) as nat)
    } else {
        digits(n as nat)
    }
}

/// The last `width` decimal digits of `n`, with leading zeros.
pub open spec fn padded_digits(n: nat, width: nat) -> Seq<char>
    decreases width,
{
    if width == 0 {
        Seq::empty()
    } else {
        padded_digits(n / 10, (width - 1) as nat).push(digit_char(n % 10))
    }
}

/// The digits after the decimal point of `frac / 10^width`, without
/// trailing zeros.
pub open spec fn fraction_digits(frac: nat, width: nat) -> Seq<char>
    decreases width,
{
    if width == 0 {
        Seq::empty()
    } else if frac % 10 == 0 {
        fraction_digits(frac / 10, (width - 1) as nat)
    } else {
        padded_digits(frac, width)
    }
}

/// The decimal text of a quantity held in millionths: the whole part,
/// and where the quantity is not whole, a point and up to six digits
/// without trailing zeros.
pub open spec fn micros_text(micros: nat) -> Seq<char> {
    if micros % 1_000_000 == 0 {
        digits(micros / 1_000_000)
    } else {
        digits(micros / 1_000_000) + seq!['.'] + fraction_digits(micros % 1_000_000, 6)
    }
}

/// The character of a digit.
fn digit(d: u128) -> (c: char)
    requires
        d < 10,
    ensures
        c == digit_char(d as nat),
{
    if d == 0 {
        '0'
    } else if d == 1 {
        '1'
    } else if d == 2 {
        '2'
    } else if d == 3 {
        '3'
    } else if d == 4 {
        '4'
    } else if d == 5 {
        '5'
    } else if d == 6 {
        '6'
    } else if d == 7 {
        '7'
    } else if d == 8 {
        '8'
    } else {
        '9'
    }
}

/// Appends the decimal digits of `n` to `out`.
pub fn push_digits(out: &mut String, n: u128)
    ensures
        final(out)@ == old(out)@ + digits(n as nat),
    decreases n,
{
    if n >= 10 {
        push_digits(out, n / 10);
    }
    push_char(out, digit(n % 10));
    assert(final(out)@ =~= old(out)@ + digits(n as nat));
}

/// Appends the decimal text of `n` to `out`.
pub fn push_int(out: &mut String, n: i64)
    ensures
        final(out)@ == old(out)@ + int_text(n as int),
{
    if n < 0 {
        push_char(out, '-');
        let m: u128 = if n == i64::MIN {
            9223372036854775808u128
        } else {
            (-n) as u128
        };
        push_digits(out, m);
        assert(final(out)@ =~= old(out)@ + int_text(n as int));
    } else {
        push_digits(out, n as u128);
    }
}

/// Appends the last `width` digits of `n`, with leading zeros.
fn push_padded(out: &mut String, n: u128, width: u8)
    ensures
        final(out)@ == old(out)@ + padded_digits(n as nat, width as nat),
    decreases width,
{
    if width > 0 {
        push_padded(out, n / 10, width - 1);
        push_char(out, digit(n % 10));
    }
    assert(final(out)@ =~= old(out)@ + padded_digits(n as nat, width as nat));
}

/// Appends the digits after the decimal point of `frac / 10^width`,
/// without trailing zeros.
fn push_fraction(out: &mut String, frac: u128, width: u8)
    ensures
        final(out)@ == old(out)@ + fraction_digits(frac as nat, width as nat),
    decreases width,
{
    if width == 0 {
        assert(final(out)@ =~= old(out)@ + fraction_digits(frac as nat, width as nat));
    } else if frac % 10 == 0 {
        push_fraction(out, frac / 10, width - 1);
    } else {
        push_padded(out, frac, width);
    }
}

/// Appends the decimal text of a quantity held in millionths to `out`.
pub fn push_micros(out: &mut String, micros: u128)
    ensures
        final(out)@ == old(out)@ + micros_text(micros as nat),
{
    push_digits(out, micros / 1_000_000);
    if micros % 1_000_000 != 0 {
        push_char(out, '.');
        push_fraction(out, micros % 1_000_000, 6);
        assert(final(out)@ =~= old(out)@ + micros_text(micros as nat));
    }
}

/// Appends the characters of `s` to `out`.
pub fn push_text(out: &mut String, s: &str)
    ensures
        final(out)@ == old(out)@ + s@,
{
    out.append(s);
}

} // verus!
