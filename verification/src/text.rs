//! Character-level helpers: strings as sequences of characters, and decimal
//! integers as they are written in the sources.

use vstd::prelude::*;

verus! {

/// An ASCII decimal digit.
pub open spec fn is_digit(c: char) -> bool {
    '0' <= c && c <= '9'
}

/// The value of an ASCII decimal digit.
pub open spec fn digit_value(c: char) -> int {
    c as int - '0' as int
}

/// Every character of `s` is an ASCII decimal digit.
pub open spec fn all_digits(s: Seq<char>) -> bool {
    forall|i: int| 0 <= i < s.len() ==> is_digit(#[trigger] s[i])
}

/// The number that a run of decimal digits denotes, most significant digit
/// first. The empty run denotes zero.
pub open spec fn digits_value(s: Seq<char>) -> int
    decreases s.len(),
{
    if s.len() == 0 {
        0
    } else {
        10 * digits_value(s.drop_last()) + digit_value(s.last())
    }
}

/// The part of a number's text that follows an optional leading sign.
pub open spec fn unsigned_part(s: Seq<char>) -> Seq<char> {
    if s.len() > 0 && (s[0] == '-' || s[0] == '+') {
        s.drop_first()
    } else {
        s
    }
}

/// The text starts with a minus sign.
pub open spec fn is_negative(s: Seq<char>) -> bool {
    s.len() > 0 && s[0] == '-'
}

/// The 32-bit integer that `s` denotes: an optional `+` or `-`, then one or
/// more ASCII digits, nothing else, and a value that fits in 32 bits with
/// sign. `None` for every other text.
pub open spec fn int_of_text(s: Seq<char>) -> Option<i32> {
    let body = unsigned_part(s);
    let magnitude = digits_value(body);
    let value = if is_negative(s) {
        -magnitude
    } else {
        magnitude
    };
    if body.len() > 0 && all_digits(body) && i32::MIN <= value <= i32::MAX {
        Some(value as i32)
    } else {
        None
    }
}

/// A run of digits denotes no negative number.
pub proof fn lemma_digits_value_is_natural(s: Seq<char>)
    requires
        all_digits(s),
    ensures
        0 <= digits_value(s),
    decreases s.len(),
{
    if s.len() > 0 {
        lemma_digits_value_is_natural(s.drop_last());
        assert(is_digit(s.last()));
    }
}

/// The characters of `s`, in order.
pub fn chars_of(s: &str) -> (out: Vec<char>)
    ensures
        out@ == s@,
{
    let mut out: Vec<char> = Vec::new();
    for c in it: s.chars()
        invariant
            it.seq() == s@,
            out@ == s@.take(it.index() as int),
    {
        out.push(c);
    }
    out
}

/// Reads the 32-bit integer written in `chars[from..to]`.
pub fn parse_int_in(chars: &Vec<char>, from: usize, to: usize) -> (out: Option<i32>)
    requires
        from <= to <= chars.len(),
    ensures
        out == int_of_text(chars@.subrange(from as int, to as int)),
{
    let ghost text = chars@.subrange(from as int, to as int);
    let mut start: usize = from;
    let mut negative = false;
    if from < to && (chars[from] == '-' || chars[from] == '+') {
        negative = chars[from] == '-';
        start = from + 1;
    }
    let ghost body = chars@.subrange(start as int, to as int);
    assert(body =~= unsigned_part(text));
    assert(negative == is_negative(text));
    if start == to {
        return None;
    }
    let limit: i64 = 2147483648;
    let mut acc: i64 = 0;
    let mut too_big = false;
    let mut i: usize = start;
    while i < to
        invariant
            start <= i <= to <= chars.len(),
            limit == 2147483648,
            body == chars@.subrange(start as int, to as int),
            body == unsigned_part(chars@.subrange(from as int, to as int)),
            all_digits(body.take(i - start)),
            !too_big ==> acc == digits_value(body.take(i - start)) && 0 <= acc <= limit,
            too_big ==> digits_value(body.take(i - start)) > limit,
        decreases to - i,
    {
        let c = chars[i];
        let ghost before = body.take(i - start);
        let ghost after = body.take(i - start + 1);
        assert(after.drop_last() =~= before);
        assert(after.last() == c);
        if !(c >= '0' && c <= '9') {
            assert(!is_digit(body[i - start]));
            return None;
        }
        assert(all_digits(after)) by {
            assert forall|k: int| 0 <= k < after.len() implies is_digit(#[trigger] after[k]) by {
                if k < before.len() {
                    assert(after[k] == before[k]);
                }
            }
        }
        proof {
            lemma_digits_value_is_natural(before);
        }
        if !too_big {
            let d: i64 = (c as u32 - '0' as u32) as i64;
            let next: i64 = acc * 10 + d;
            if next > limit {
                too_big = true;
            } else {
                acc = next;
            }
        }
        i = i + 1;
    }
    assert(body.take(to - start) =~= body);
    if too_big {
        None
    } else if negative {
        Some((-acc) as i32)
    } else if acc <= 2147483647 {
        Some(acc as i32)
    } else {
        None
    }
}

/// Reads the 32-bit integer written in `s`: an optional sign and decimal
/// digits.
pub fn parse_int(s: &str) -> (out: Option<i32>)
    ensures
        out == int_of_text(s@),
{
    let chars = chars_of(s);
    assert(chars@.subrange(0, chars@.len() as int) =~= s@);
    parse_int_in(&chars, 0, chars.len())
}

} // verus!
