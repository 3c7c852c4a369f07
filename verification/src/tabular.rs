use crate::text::{is_white_space, push_char};
use vstd::prelude::*;
use vstd::string::*;

verus! {

/// The characters of a text.
pub fn chars_of(s: &str) -> (r: Vec<char>)
    ensures
        r@ == s@,
{
    let n = s.unicode_len();
    let mut out: Vec<char> = Vec::new();
    let mut i: usize = 0;
    while i < n
        invariant
            n == s@.len(),
            i <= n,
            out@ == s@.subrange(0, i as int),
        decreases n - i,
    {
        out.push(s.get_char(i));
        i += 1;
        assert(out@ =~= s@.subrange(0, i as int));
    }
    assert(s@.subrange(0, n as int) =~= s@);
    out
}

/// The text of the characters from `from` up to `to`.
pub fn text_between(chars: &Vec<char>, from: usize, to: usize) -> (r: String)
    requires
        from <= to <= chars@.len(),
    ensures
        r@ == chars@.subrange(from as int, to as int),
{
    let mut out = String::new();
    let mut i: usize = from;
    while i < to
        invariant
            from <= i <= to <= chars@.len(),
            out@ == chars@.subrange(from as int, i as int),
        decreases to - i,
    {
        push_char(&mut out, chars[i]);
        i += 1;
        assert(out@ =~= chars@.subrange(from as int, i as int));
    }
    out
}

/// The first place from `from` on, and before `to`, at which `s` holds
/// the character `c`; `to` where there is none.
pub open spec fn first_at(s: Seq<char>, c: char, from: int, to: int) -> int
    decreases to - from,
{
    if from >= to {
        to
    } else if s[from] == c {
        from
    } else {
        first_at(s, c, from + 1, to)
    }
}

/// The place that `first_at` gives lies between `from` and `to`, holds
/// the character unless it is `to`, and no place before it does.
pub proof fn lemma_first_at(s: Seq<char>, c: char, from: int, to: int)
    requires
        0 <= from <= to <= s.len(),
    ensures
        from <= first_at(s, c, from, to) <= to,
        first_at(s, c, from, to) < to ==> s[first_at(s, c, from, to)] == c,
        forall|i: int| from <= i < first_at(s, c, from, to) ==> s[i] != c,
    decreases to - from,
{
    if from < to && s[from] != c {
        lemma_first_at(s, c, from + 1, to);
    }
}

/// The first place from `from` on, and before `to`, at which `chars`
/// holds the character `c`; `to` where there is none.
pub fn find_char(chars: &Vec<char>, c: char, from: usize, to: usize) -> (r: usize)
    requires
        from <= to <= chars@.len(),
    ensures
        r == first_at(chars@, c, from as int, to as int),
        from <= r <= to,
{
    let mut i: usize = from;
    while i < to
        invariant
            from <= i <= to <= chars@.len(),
            first_at(chars@, c, from as int, to as int) == first_at(chars@, c, i as int, to as int),
        decreases to - i,
    {
        if chars[i] == c {
            return i;
        }
        i += 1;
    }
    i
}

/// The parts of `s` from `from` on that the character `sep` separates.
pub open spec fn split_from(s: Seq<char>, sep: char, from: int) -> Seq<Seq<char>>
    decreases s.len() - from,
{
    if from < 0 || from > s.len() {
        Seq::empty()
    } else {
        let end = first_at(s, sep, from, s.len() as int);
        if end >= s.len() {
            seq![s.subrange(from, s.len() as int)]
        } else if end < from {
            Seq::empty()
        } else {
            seq![s.subrange(from, end)] + split_from(s, sep, end + 1)
        }
    }
}

/// The parts of `s` that the character `sep` separates. A text without
/// the character is one part.
pub open spec fn split_on(s: Seq<char>, sep: char) -> Seq<Seq<char>> {
    split_from(s, sep, 0)
}

/// The parts of the text that the character `sep` separates.
pub fn split(chars: &Vec<char>, sep: char) -> (r: Vec<String>)
    ensures
        r.deep_view() == split_on(chars@, sep),
        r@.len() > 0,
{
    let n = chars.len();
    let mut parts: Vec<String> = Vec::new();
    let mut start: usize = 0;
    loop
        invariant
            n == chars@.len(),
            start <= n,
            split_on(chars@, sep) == parts.deep_view() + split_from(chars@, sep, start as int),
        decreases n - start,
    {
        let end = find_char(chars, sep, start, n);
        parts.push(text_between(chars, start, end));
        if end >= n {
            assert(parts.deep_view() =~= parts.deep_view().drop_last().push(
                chars@.subrange(start as int, n as int),
            ));
            assert(parts.deep_view() =~= split_on(chars@, sep));
            return parts;
        }
        proof {
            lemma_first_at(chars@, sep, start as int, n as int);
            assert(parts.deep_view() + split_from(chars@, sep, end + 1) =~= parts.deep_view().drop_last()
                + split_from(chars@, sep, start as int));
        }
        start = end + 1;
    }
}

/// `s` without a carriage return at its end.
pub open spec fn without_return(s: Seq<char>) -> Seq<char> {
    if s.len() > 0 && s.last() == '\r' {
        s.drop_last()
    } else {
        s
    }
}

/// The lines of `s`. A line ends with a line feed, which may follow a
/// carriage return; neither belongs to the line. What follows the last
/// line feed is a line unless it is empty.
pub open spec fn lines_of(s: Seq<char>) -> Seq<Seq<char>> {
    let parts = split_on(s, '\n');
    Seq::new(
        if parts.len() > 0 && parts.last().len() == 0 {
            (parts.len() - 1) as nat
        } else {
            parts.len()
        },
        |i: int|
            if i < parts.len() - 1 {
                without_return(parts[i])
            } else {
                parts[i]
            },
    )
}

/// A text has at least one part, and a text with one part only is
/// that part.
pub proof fn lemma_split_parts(s: Seq<char>, sep: char, from: int)
    requires
        0 <= from <= s.len(),
    ensures
        split_from(s, sep, from).len() >= 1,
        split_from(s, sep, from).len() == 1 ==> split_from(s, sep, from)[0] == s.subrange(
            from,
            s.len() as int,
        ),
    decreases s.len() - from,
{
    lemma_first_at(s, sep, from, s.len() as int);
    let end = first_at(s, sep, from, s.len() as int);
    if end < s.len() {
        lemma_split_parts(s, sep, end + 1);
    }
}

/// The lines of the text.
pub fn lines(contents: &str) -> (r: Vec<String>)
    ensures
        r.deep_view() == lines_of(contents@),
        contents@.len() > 0 ==> r@.len() > 0,
{
    let chars = chars_of(contents);
    let mut parts = split(&chars, '\n');
    let ghost all = parts.deep_view();
    let count = parts.len();
    let mut out: Vec<String> = Vec::new();
    let mut i: usize = 0;
    while i < count
        invariant
            count == parts@.len(),
            parts.deep_view() == all,
            all == split_on(contents@, '\n'),
            i <= count,
            out@.len() == (if i == count && all.last().len() == 0 {
                i - 1
            } else {
                i as int
            }),
            forall|k: int| 0 <= k < out@.len() ==> out@[k]@ == lines_of(contents@)[k],
        decreases count - i,
    {
        let part = &parts[i];
        assert(part@ == all[i as int]);
        let len = part.as_str().unicode_len();
        if i + 1 < count {
            if len > 0 && part.as_str().get_char(len - 1) == '\r' {
                let line = part.as_str().substring_char(0, len - 1).to_owned();
                assert(line@ =~= without_return(part@));
                out.push(line);
            } else {
                out.push(part.clone());
            }
        } else if len > 0 {
            out.push(part.clone());
        }
        i += 1;
    }
    assert(out.deep_view() =~= lines_of(contents@));
    proof {
        lemma_split_parts(contents@, '\n', 0);
        assert(contents@.subrange(0, contents@.len() as int) =~= contents@);
    }
    out
}

/// Whether `c` is one of the digits from 0 to 9.
pub open spec fn is_digit(c: char) -> bool {
    48 <= c as int <= 57
}

/// The number that the digit `c` stands for.
pub open spec fn digit_value(c: char) -> nat
    recommends
        is_digit(c),
{
    (c as int - 48) as nat
}

/// Whether `s` holds digits only from `from` up to `to`.
pub open spec fn digits_between(s: Seq<char>, from: int, to: int) -> bool {
    forall|i: int| from <= i < to ==> is_digit(#[trigger] s[i])
}

/// The number that the digits of `s` from `from` up to `to` stand for.
pub open spec fn whole_value(s: Seq<char>, from: int, to: int) -> nat
    decreases to - from,
{
    if to <= from {
        0
    } else {
        whole_value(s, from, to - 1) * 10 + digit_value(s[to - 1])
    }
}

/// The number of millionths that the digits of `s` from `from` up to
/// `to` stand for when the first of them counts `scale` millionths and
/// each further one a tenth of the one before. Digits beyond the
/// millionths are cut off.
pub open spec fn fraction_value(s: Seq<char>, from: int, to: int, scale: nat) -> nat
    decreases to - from,
{
    if to <= from || scale == 0 {
        0
    } else {
        digit_value(s[from]) * scale + fraction_value(s, from + 1, to, scale / 10)
    }
}

/// The number of millionths that the characters of `s` from `from` up
/// to `to` stand for as a decimal number: digits, of which there is at
/// least one, and then, if anything, a point and digits. They stand
/// for nothing where they are not of this form.
pub open spec fn decimal_between(s: Seq<char>, from: int, to: int) -> Option<nat> {
    let point = first_at(s, '.', from, to);
    if from < point && digits_between(s, from, point) && digits_between(s, point + 1, to) {
        Some(whole_value(s, from, point) * 1_000_000 + fraction_value(s, point + 1, to, 100_000))
    } else {
        None
    }
}

/// The first place from `from` on, and before `to`, at which `s` holds
/// no white space; `to` where there is none.
pub open spec fn skip_space(s: Seq<char>, from: int, to: int) -> int
    decreases to - from,
{
    if from >= to {
        to
    } else if !is_white_space(s[from]) {
        from
    } else {
        skip_space(s, from + 1, to)
    }
}

/// The end of what is left of `s` between `from` and `to` when the
/// white space before `to` is dropped.
pub open spec fn drop_space(s: Seq<char>, from: int, to: int) -> int
    decreases to - from,
{
    if from >= to {
        from
    } else if !is_white_space(s[to - 1]) {
        to
    } else {
        drop_space(s, from, to - 1)
    }
}

/// Whether `c` is white space.
pub fn white_space(c: char) -> (r: bool)
    ensures
        r == is_white_space(c),
{
    let n = c as u32;
    (0x09 <= n && n <= 0x0D) || n == 0x20 || n == 0x85 || n == 0xA0 || n == 0x1680 || (0x2000 <= n
        && n <= 0x200A) || n == 0x2028 || n == 0x2029 || n == 0x202F || n == 0x205F || n == 0x3000
}

/// The first place from `from` on at which there is no white space.
pub fn skip_spaces(chars: &Vec<char>, from: usize, to: usize) -> (r: usize)
    requires
        from <= to <= chars@.len(),
    ensures
        r == skip_space(chars@, from as int, to as int),
        from <= r <= to,
{
    let mut i: usize = from;
    while i < to
        invariant
            from <= i <= to <= chars@.len(),
            skip_space(chars@, from as int, to as int) == skip_space(chars@, i as int, to as int),
        decreases to - i,
    {
        if !white_space(chars[i]) {
            return i;
        }
        i += 1;
    }
    i
}

/// The end of what is left when the white space before `to` is
/// dropped.
pub fn drop_spaces(chars: &Vec<char>, from: usize, to: usize) -> (r: usize)
    requires
        from <= to <= chars@.len(),
    ensures
        r == drop_space(chars@, from as int, to as int),
        from <= r <= to,
{
    let mut i: usize = to;
    while i > from
        invariant
            from <= i <= to <= chars@.len(),
            drop_space(chars@, from as int, to as int) == drop_space(chars@, from as int, i as int),
        decreases i - from,
    {
        if !white_space(chars[i - 1]) {
            return i;
        }
        i -= 1;
    }
    i
}

/// The number that a digit stands for.
fn digit_of(c: char) -> (r: Option<u64>)
    ensures
        match r {
            Some(d) => is_digit(c) && d == digit_value(c),
            None => !is_digit(c),
        },
{
    let n = c as u32;
    if 48 <= n && n <= 57 {
        Some((n - 48) as u64)
    } else {
        None
    }
}

/// The number that the digits from `from` up to `to` stand for, where
/// there are digits only and the number fits in 64 bits.
pub fn parse_whole(chars: &Vec<char>, from: usize, to: usize) -> (r: Option<u64>)
    requires
        from <= to <= chars@.len(),
    ensures
        match r {
            Some(v) => digits_between(chars@, from as int, to as int) && v == whole_value(
                chars@,
                from as int,
                to as int,
            ),
            None => !digits_between(chars@, from as int, to as int) || whole_value(
                chars@,
                from as int,
                to as int,
            ) > u64::MAX,
        },
{
    let mut value: u64 = 0;
    let mut i: usize = from;
    while i < to
        invariant
            from <= i <= to <= chars@.len(),
            digits_between(chars@, from as int, i as int),
            value == whole_value(chars@, from as int, i as int),
        decreases to - i,
    {
        match digit_of(chars[i]) {
            Some(d) => {
                if value > (u64::MAX - d) / 10 {
                    proof {
                        lemma_whole_value_grows(chars@, from as int, i as int + 1, to as int);
                    }
                    return None;
                }
                value = value * 10 + d;
            },
            None => {
                return None;
            },
        }
        i += 1;
    }
    Some(value)
}

/// The number that digits stand for does not shrink when more digits
/// follow.
pub proof fn lemma_whole_value_grows(s: Seq<char>, from: int, mid: int, to: int)
    requires
        from <= mid <= to,
    ensures
        whole_value(s, from, mid) <= whole_value(s, from, to),
    decreases to - mid,
{
    if mid < to {
        lemma_whole_value_grows(s, from, mid, to - 1);
    }
}

/// The number of millionths that the digits from `from` up to `to`
/// stand for after a decimal point, where there are digits only.
pub fn parse_fraction_digits(chars: &Vec<char>, from: usize, to: usize) -> (r: Option<u64>)
    requires
        from <= to <= chars@.len(),
    ensures
        match r {
            Some(v) => digits_between(chars@, from as int, to as int) && v == fraction_value(
                chars@,
                from as int,
                to as int,
                100_000,
            ) && v < 1_000_000,
            None => !digits_between(chars@, from as int, to as int),
        },
{
    let mut value: u64 = 0;
    let mut scale: u64 = 100_000;
    let mut i: usize = from;
    while i < to
        invariant
            from <= i <= to <= chars@.len(),
            digits_between(chars@, from as int, i as int),
            scale <= 100_000,
            value < 1_000_000,
            scale > 0 ==> value + 10 * scale <= 1_000_000,
            fraction_value(chars@, from as int, to as int, 100_000) == value + fraction_value(
                chars@,
                i as int,
                to as int,
                scale as nat,
            ),
        decreases to - i,
    {
        match digit_of(chars[i]) {
            Some(d) => {
                assert(d * scale <= 9 * scale) by (nonlinear_arith)
                    requires
                        d <= 9,
                ;
                value = value + d * scale;
                scale = scale / 10;
            },
            None => {
                return None;
            },
        }
        i += 1;
    }
    Some(value)
}

/// The number of millionths that the characters from `from` up to
/// `to` stand for as a decimal number, where they are of that form
/// and the number fits in 64 bits.
pub fn parse_decimal(chars: &Vec<char>, from: usize, to: usize) -> (r: Option<u64>)
    requires
        from <= to <= chars@.len(),
    ensures
        match decimal_between(chars@, from as int, to as int) {
            Some(v) => if v <= u64::MAX {
                r == Some(v as u64)
            } else {
                r is None
            },
            None => r is None,
        },
{
    let point = find_char(chars, '.', from, to);
    if point == from {
        return None;
    }
    let whole = parse_whole(chars, from, point);
    let fraction = if point < to {
        parse_fraction_digits(chars, point + 1, to)
    } else {
        Some(0)
    };
    match (whole, fraction) {
        (Some(w), Some(f)) => {
            if w > (u64::MAX - f) / 1_000_000 {
                None
            } else {
                Some(w * 1_000_000 + f)
            }
        },
        _ => None,
    }
}

/// The number that the characters of `s` from `from` up to `to` stand
/// for as a whole number with or without a sign: a plus or a minus
/// sign, or none, and then digits, of which there is at least one.
pub open spec fn signed_between(s: Seq<char>, from: int, to: int) -> Option<int> {
    let start = if from < to && (s[from] == '-' || s[from] == '+') {
        from + 1
    } else {
        from
    };
    if start < to && digits_between(s, start, to) {
        if from < to && s[from] == '-' {
            Some(-(whole_value(s, start, to) as int))
        } else {
            Some(whole_value(s, start, to) as int)
        }
    } else {
        None
    }
}

/// The number of millionths that the characters of `s` from `from` up
/// to `to` stand for as a decimal number with or without a sign.
pub open spec fn signed_decimal_between(s: Seq<char>, from: int, to: int) -> Option<int> {
    let start = if from < to && (s[from] == '-' || s[from] == '+') {
        from + 1
    } else {
        from
    };
    match decimal_between(s, start, to) {
        Some(v) => if from < to && s[from] == '-' {
            Some(-(v as int))
        } else {
            Some(v as int)
        },
        None => None,
    }
}

/// The whole number that the characters from `from` up to `to` stand
/// for, where they are of that form and the number lies between
/// `least` and `most`.
pub fn parse_signed(chars: &Vec<char>, from: usize, to: usize, least: i64, most: i64) -> (r: Option<
    i64,
>)
    requires
        from <= to <= chars@.len(),
        least <= 0 <= most,
    ensures
        match signed_between(chars@, from as int, to as int) {
            Some(v) => if least <= v <= most {
                r == Some(v as i64)
            } else {
                r is None
            },
            None => r is None,
        },
{
    let negative = from < to && chars[from] == '-';
    let start = if from < to && (chars[from] == '-' || chars[from] == '+') {
        from + 1
    } else {
        from
    };
    if start >= to {
        return None;
    }
    match parse_whole(chars, start, to) {
        Some(v) => {
            if negative {
                if v <= 9223372036854775808u64 && -(v as i128) >= least as i128 {
                    Some((-(v as i128)) as i64)
                } else {
                    None
                }
            } else if v <= most as u64 {
                Some(v as i64)
            } else {
                None
            }
        },
        None => None,
    }
}

/// The number of millionths that the characters from `from` up to
/// `to` stand for as a decimal number with or without a sign, where
/// they are of that form and the number fits in 64 bits.
pub fn parse_signed_decimal(chars: &Vec<char>, from: usize, to: usize) -> (r: Option<i64>)
    requires
        from <= to <= chars@.len(),
    ensures
        match signed_decimal_between(chars@, from as int, to as int) {
            Some(v) => if i64::MIN <= v <= i64::MAX {
                r == Some(v as i64)
            } else {
                r is None
            },
            None => r is None,
        },
{
    let negative = from < to && chars[from] == '-';
    let start = if from < to && (chars[from] == '-' || chars[from] == '+') {
        from + 1
    } else {
        from
    };
    proof {
        if decimal_between(chars@, start as int, to as int) is Some {
            let v = decimal_between(chars@, start as int, to as int).unwrap();
            if v > u64::MAX {
                assert(-(v as int) < i64::MIN);
            }
        }
    }
    match parse_decimal(chars, start, to) {
        Some(v) => {
            if negative {
                if v <= 9223372036854775808u64 {
                    Some((-(v as i128)) as i64)
                } else {
                    None
                }
            } else if v <= 9223372036854775807u64 {
                Some(v as i64)
            } else {
                None
            }
        },
        None => None,
    }
}

/// The first place from `from` on, and before `to`, at which `s` holds
/// no digit; `to` where there is none.
pub open spec fn end_of_digits(s: Seq<char>, from: int, to: int) -> int
    decreases to - from,
{
    if from >= to {
        to
    } else if !is_digit(s[from]) {
        from
    } else {
        end_of_digits(s, from + 1, to)
    }
}

/// The first place from `from` on at which there is no digit.
pub fn skip_digits(chars: &Vec<char>, from: usize, to: usize) -> (r: usize)
    requires
        from <= to <= chars@.len(),
    ensures
        r == end_of_digits(chars@, from as int, to as int),
        from <= r <= to,
{
    let mut i: usize = from;
    while i < to
        invariant
            from <= i <= to <= chars@.len(),
            end_of_digits(chars@, from as int, to as int) == end_of_digits(
                chars@,
                i as int,
                to as int,
            ),
        decreases to - i,
    {
        if digit_of(chars[i]).is_none() {
            return i;
        }
        i += 1;
    }
    i
}

} // verus!
