//! Reading what a player typed: the blanks around it, the fields between
//! commas, and decimal numbers.

use vstd::prelude::*;

verus! {

/// Whether `c` is white space: a tab, a line feed, a vertical tab, a form
/// feed, a carriage return, a space, or one of the blanks beyond ASCII that
/// Unicode lists as white space.
pub open spec fn is_space(c: char) -> bool {
    let code = c as u32;
    ||| 0x09 <= code <= 0x0d
    ||| code == 0x20
    ||| code == 0x85
    ||| code == 0xa0
    ||| code == 0x1680
    ||| 0x2000 <= code <= 0x200a
    ||| code == 0x2028
    ||| code == 0x2029
    ||| code == 0x202f
    ||| code == 0x205f
    ||| code == 0x3000
}

/// How many characters of white space `s` begins with.
pub open spec fn leading_spaces(s: Seq<char>) -> nat
    decreases s.len(),
{
    if s.len() > 0 && is_space(s[0]) {
        1 + leading_spaces(s.drop_first())
    } else {
        0
    }
}

/// How many characters of white space `s` ends with.
pub open spec fn trailing_spaces(s: Seq<char>) -> nat
    decreases s.len(),
{
    if s.len() > 0 && is_space(s.last()) {
        1 + trailing_spaces(s.drop_last())
    } else {
        0
    }
}

/// `s` without the white space at its beginning and at its end.
pub open spec fn trimmed(s: Seq<char>) -> Seq<char> {
    let rest = s.skip(leading_spaces(s) as int);
    rest.take(rest.len() - trailing_spaces(rest))
}

/// How many characters of `s` stand before its first comma; the length of
/// `s` where it holds no comma.
pub open spec fn field_len(s: Seq<char>) -> nat
    decreases s.len(),
{
    if s.len() > 0 && s[0] != ',' {
        1 + field_len(s.drop_first())
    } else {
        0
    }
}

/// Whether `c` is one of the digits 0 to 9.
pub open spec fn is_digit(c: char) -> bool {
    0x30 <= c as u32 <= 0x39
}

/// The number that the digit `c` stands for.
pub open spec fn digit_value(c: char) -> nat {
    (c as u32 - 0x30) as nat
}

/// Whether `s` is made of digits only.
pub open spec fn all_digits(s: Seq<char>) -> bool {
    forall|i: int| 0 <= i < s.len() ==> is_digit(#[trigger] s[i])
}

/// The number that the digits of `s` write in base ten.
pub open spec fn decimal_value(s: Seq<char>) -> nat
    decreases s.len(),
{
    if s.len() == 0 {
        0
    } else {
        10 * decimal_value(s.drop_last()) + digit_value(s.last())
    }
}

/// The number that `s` writes, where it writes one that is at most `max`:
/// one digit or more, with or without a plus sign in front, and nothing else.
pub open spec fn parse_number(s: Seq<char>, max: nat) -> Option<nat> {
    let digits = if s.len() > 0 && s[0] == '+' {
        s.drop_first()
    } else {
        s
    };
    if digits.len() > 0 && all_digits(digits) && decimal_value(digits) <= max {
        Some(decimal_value(digits))
    } else {
        None
    }
}

/// The first field of a text is part of the text, and holds no comma.
pub proof fn lemma_field_len(s: Seq<char>)
    ensures
        field_len(s) <= s.len(),
        forall|i: int| 0 <= i < field_len(s) ==> s[i] != ',',
        field_len(s) < s.len() ==> s[field_len(s) as int] == ',',
    decreases s.len(),
{
    if s.len() > 0 && s[0] != ',' {
        let rest = s.drop_first();
        lemma_field_len(rest);
        assert forall|i: int| 0 <= i < field_len(s) implies s[i] != ',' by {
            if i > 0 {
                assert(s[i] == rest[i - 1]);
            }
        }
        if field_len(s) < s.len() {
            assert(s[field_len(s) as int] == rest[field_len(rest) as int]);
        }
    }
}

/// Digits added at the end do not make a number smaller.
pub proof fn lemma_decimal_value_grows(s: Seq<char>, k: int)
    requires
        0 <= k <= s.len(),
    ensures
        decimal_value(s.take(k)) <= decimal_value(s),
    decreases s.len(),
{
    if k < s.len() {
        lemma_decimal_value_grows(s.drop_last(), k);
        assert(s.drop_last().take(k) =~= s.take(k));
    } else {
        assert(s.take(k) =~= s);
    }
}

/// Says whether `c` is white space.
pub fn is_whitespace(c: char) -> (r: bool)
    ensures
        r == is_space(c),
{
    let code: u32 = c as u32;
    (0x09 <= code && code <= 0x0d) || code == 0x20 || code == 0x85 || code == 0xa0 || code
        == 0x1680 || (0x2000 <= code && code <= 0x200a) || code == 0x2028 || code == 0x2029
        || code == 0x202f || code == 0x205f || code == 0x3000
}

/// The characters of `text`, in a vector.
pub fn chars_of(text: &str) -> (chars: Vec<char>)
    ensures
        chars@ == text@,
{
    let n = text.unicode_len();
    let mut chars: Vec<char> = Vec::new();
    let mut i: usize = 0;
    while i < n
        invariant
            i <= n,
            n == text@.len(),
            chars@ == text@.take(i as int),
        decreases n - i,
    {
        chars.push(text.get_char(i));
        assert(chars@ =~= text@.take(i + 1));
        i = i + 1;
    }
    assert(text@.take(n as int) =~= text@);
    chars
}

/// Trims the part of `text` between `from` and `to`: returns where the
/// trimmed part begins and where it ends.
pub fn trim_range(text: &Vec<char>, from: usize, to: usize) -> (r: (usize, usize))
    requires
        from <= to <= text@.len(),
    ensures
        from <= r.0 <= r.1 <= to,
        text@.subrange(r.0 as int, r.1 as int) == trimmed(text@.subrange(from as int, to as int)),
{
    let ghost whole = text@.subrange(from as int, to as int);
    let mut start: usize = from;
    while start < to && is_whitespace(text[start])
        invariant
            from <= start <= to <= text@.len(),
            leading_spaces(text@.subrange(from as int, to as int)) == (start - from)
                + leading_spaces(text@.subrange(start as int, to as int)),
        decreases to - start,
    {
        assert(text@.subrange(start as int, to as int).drop_first() =~= text@.subrange(
            start + 1,
            to as int,
        ));
        start = start + 1;
    }
    let ghost rest = text@.subrange(start as int, to as int);
    assert(leading_spaces(whole) == start - from);
    assert(whole.skip(leading_spaces(whole) as int) =~= rest);
    let mut end: usize = to;
    while start < end && is_whitespace(text[end - 1])
        invariant
            start <= end <= to <= text@.len(),
            trailing_spaces(text@.subrange(start as int, to as int)) == (to - end)
                + trailing_spaces(text@.subrange(start as int, end as int)),
        decreases end - start,
    {
        assert(text@.subrange(start as int, end as int).drop_last() =~= text@.subrange(
            start as int,
            end - 1,
        ));
        end = end - 1;
    }
    assert(trailing_spaces(rest) == to - end);
    assert(rest.take(rest.len() - trailing_spaces(rest)) =~= text@.subrange(
        start as int,
        end as int,
    ));
    (start, end)
}

/// Finds where the field that begins at `from` ends: at the first comma
/// from there on, or at `to` where there is none.
pub fn field_end(text: &Vec<char>, from: usize, to: usize) -> (end: usize)
    requires
        from <= to <= text@.len(),
    ensures
        from <= end <= to,
        end == from + field_len(text@.subrange(from as int, to as int)),
{
    let mut end: usize = from;
    while end < to && text[end] != ','
        invariant
            from <= end <= to <= text@.len(),
            field_len(text@.subrange(from as int, to as int)) == (end - from) + field_len(
                text@.subrange(end as int, to as int),
            ),
        decreases to - end,
    {
        assert(text@.subrange(end as int, to as int).drop_first() =~= text@.subrange(
            end + 1,
            to as int,
        ));
        end = end + 1;
    }
    end
}

/// Reads the part of `text` between `from` and `to` as a decimal number of
/// at most `max`.
pub fn parse_range(text: &Vec<char>, from: usize, to: usize, max: u32) -> (number: Option<u32>)
    requires
        from <= to <= text@.len(),
    ensures
        match number {
            Some(n) => parse_number(text@.subrange(from as int, to as int), max as nat) == Some(
                n as nat,
            ),
            None => parse_number(text@.subrange(from as int, to as int), max as nat) is None,
        },
{
    let ghost whole = text@.subrange(from as int, to as int);
    let start: usize = if from < to && text[from] == '+' {
        from + 1
    } else {
        from
    };
    let ghost digits = text@.subrange(start as int, to as int);
    assert(digits =~= if whole.len() > 0 && whole[0] == '+' {
        whole.drop_first()
    } else {
        whole
    });
    assert(parse_number(whole, max as nat) == if digits.len() > 0 && all_digits(digits)
        && decimal_value(digits) <= max {
        Some(decimal_value(digits))
    } else {
        None
    });
    if start == to {
        return None;
    }
    let mut value: u64 = 0;
    let mut i: usize = start;
    while i < to
        invariant
            start <= i <= to <= text@.len(),
            digits == text@.subrange(start as int, to as int),
            parse_number(text@.subrange(from as int, to as int), max as nat) == if digits.len() > 0
                && all_digits(digits) && decimal_value(digits) <= max {
                Some(decimal_value(digits))
            } else {
                None
            },
            all_digits(digits.take(i - start)),
            value == decimal_value(digits.take(i - start)),
            value <= max,
        decreases to - i,
    {
        let code: u32 = text[i] as u32;
        if code < 0x30 || code > 0x39 {
            assert(!is_digit(digits[i - start]));
            return None;
        }
        let ghost next = digits.take(i - start + 1);
        assert(next.drop_last() =~= digits.take(i - start));
        assert(next.last() == text@[i as int]);
        value = value * 10 + (code - 0x30) as u64;
        if value > max as u64 {
            proof {
                lemma_decimal_value_grows(digits, i - start + 1);
            }
            return None;
        }
        assert forall|j: int| 0 <= j < next.len() implies is_digit(#[trigger] next[j]) by {
            if j < i - start {
                assert(next[j] == digits.take(i - start)[j]);
            }
        }
        i = i + 1;
    }
    assert(digits.take(to - start) =~= digits);
    Some(value as u32)
}

} // verus!
