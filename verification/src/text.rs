//! Decimal digits in text: what a run of digits is worth, and how a number is
//! written.

use vstd::prelude::*;
use vstd::string::StrSliceExecFns;
use vstd::string::StringExecFns;

verus! {

/// Whether a character is one of `0` to `9`.
pub open spec fn is_digit(c: char) -> bool {
    '0' <= c <= '9'
}

/// The value of a digit character.
pub open spec fn digit_value(c: char) -> int
    recommends
        is_digit(c),
{
    c as u32 as int - 48
}

/// The character of a digit value.
pub open spec fn digit_char(d: int) -> char
    recommends
        0 <= d <= 9,
{
    if d == 0 {
        '0'
    } else if d == 1 {
        '1'
    } else if d == 2 {
        '2'
    } else if d == 3 {
        '3'
    } else if d == 4 {
        '4'
    } else if d == 5 {
        '5'
    } else if d == 6 {
        '6'
    } else if d == 7 {
        '7'
    } else if d == 8 {
        '8'
    } else {
        '9'
    }
}

/// Whether every character of a sequence is a digit.
pub open spec fn all_digits(s: Seq<char>) -> bool {
    forall|i: int| 0 <= i < s.len() ==> is_digit(#[trigger] s[i])
}

/// The number that a sequence of digits writes, most significant digit first.
pub open spec fn digits_value(s: Seq<char>) -> nat
    decreases s.len(),
{
    if s.len() == 0 {
        0
    } else {
        (digits_value(s.drop_last()) * 10 + digit_value(s.last())) as nat
    }
}

/// The length of the longest prefix of `s` made of digits.
pub open spec fn digit_run(s: Seq<char>) -> nat
    decreases s.len(),
{
    if s.len() > 0 && is_digit(s[0]) {
        1 + digit_run(s.skip(1))
    } else {
        0
    }
}

/// A natural number written in decimal, without leading zeros.
pub open spec fn nat_text(n: nat) -> Seq<char>
    decreases n,
{
    if n < 10 {
        seq![digit_char(n as int)]
    } else {
        nat_text(n / 10).push(digit_char((n % 10) as int))
    }
}

/// Ten to the power `e`.
pub open spec fn pow10(e: nat) -> nat
    decreases e,
{
    if e == 0 {
        1
    } else {
        10 * pow10((e - 1) as nat)
    }
}

/// `digit_run(s)` is `k` exactly when the first `k` characters are digits and
/// the next one, if any, is not.
pub proof fn lemma_digit_run(s: Seq<char>, k: int)
    requires
        0 <= k <= s.len(),
        forall|i: int| 0 <= i < k ==> is_digit(#[trigger] s[i]),
        k < s.len() ==> !is_digit(s[k]),
    ensures
        digit_run(s) == k,
    decreases k,
{
    if k > 0 {
        let t = s.skip(1);
        assert forall|i: int| 0 <= i < k - 1 implies is_digit(#[trigger] t[i]) by {
            assert(t[i] == s[i + 1]);
        }
        lemma_digit_run(t, k - 1);
    }
}

/// The characters of a digit run are digits.
pub proof fn lemma_digit_run_digits(s: Seq<char>)
    ensures
        digit_run(s) <= s.len(),
        forall|i: int| 0 <= i < digit_run(s) ==> is_digit(#[trigger] s[i]),
        digit_run(s) < s.len() ==> !is_digit(s[digit_run(s) as int]),
    decreases s.len(),
{
    if s.len() > 0 && is_digit(s[0]) {
        let t = s.skip(1);
        lemma_digit_run_digits(t);
        assert forall|i: int| 0 <= i < digit_run(s) implies is_digit(#[trigger] s[i]) by {
            if i > 0 {
                assert(t[i - 1] == s[i]);
            }
        }
        if digit_run(s) < s.len() {
            assert(t[digit_run(t) as int] == s[digit_run(s) as int]);
        }
    }
}

/// What one more digit adds to a run of digits.
pub proof fn lemma_digits_value_push(s: Seq<char>, c: char)
    requires
        is_digit(c),
    ensures
        digits_value(s.push(c)) == digits_value(s) * 10 + digit_value(c),
{
    assert(s.push(c).drop_last() =~= s);
    assert(s.push(c).last() == c);
}

/// Whether two texts are the same.
pub fn same_text(a: &str, b: &str) -> (r: bool)
    ensures
        r == (a@ == b@),
{
    String::from_str(a) == String::from_str(b)
}

/// The text of one digit.
pub fn digit_str(d: u8) -> (r: &'static str)
    requires
        d <= 9,
    ensures
        r@ == seq![digit_char(d as int)],
{
    proof {
        reveal_strlit("0");
        reveal_strlit("1");
        reveal_strlit("2");
        reveal_strlit("3");
        reveal_strlit("4");
        reveal_strlit("5");
        reveal_strlit("6");
        reveal_strlit("7");
        reveal_strlit("8");
        reveal_strlit("9");
    }
    let r = if d == 0 {
        "0"
    } else if d == 1 {
        "1"
    } else if d == 2 {
        "2"
    } else if d == 3 {
        "3"
    } else if d == 4 {
        "4"
    } else if d == 5 {
        "5"
    } else if d == 6 {
        "6"
    } else if d == 7 {
        "7"
    } else if d == 8 {
        "8"
    } else {
        "9"
    };
    assert(r@ =~= seq![digit_char(d as int)]);
    r
}

/// Writes a natural number in decimal, without leading zeros.
pub fn nat_to_text(n: u64) -> (s: String)
    ensures
        s@ == nat_text(n as nat),
    decreases n,
{
    if n < 10 {
        String::from_str(digit_str(n as u8))
    } else {
        let mut s = nat_to_text(n / 10);
        s.append(digit_str((n % 10) as u8));
        assert(s@ =~= nat_text(n as nat));
        s
    }
}

/// The digit that a character writes, if it is one.
pub fn char_digit(c: char) -> (r: Option<u8>)
    ensures
        is_digit(c) ==> r == Some(digit_value(c) as u8),
        !is_digit(c) ==> r is None,
        r matches Some(d) ==> d <= 9,
{
    if c >= '0' && c <= '9' {
        let code: u32 = c as u32;
        Some((code - 48) as u8)
    } else {
        None
    }
}

/// Reads the digits of `text` from position `from` on, as far as they go.
///
/// Returns the position after the last digit read and the value of the
/// digits, or `None` for the value once it exceeds `limit`.
pub fn read_digits(text: &str, from: usize, limit: u64) -> (r: (usize, Option<u64>))
    requires
        from <= text@.len(),
    ensures
        r.0 == from + digit_run(text@.skip(from as int)),
        r.0 <= text@.len(),
        digits_value(text@.subrange(from as int, r.0 as int)) <= limit ==> r.1 == Some(
            digits_value(text@.subrange(from as int, r.0 as int)) as u64,
        ),
        digits_value(text@.subrange(from as int, r.0 as int)) > limit ==> r.1 is None,
{
    let len: usize = text.unicode_len();
    let mut pos: usize = from;
    let mut value: Option<u64> = Some(0);
    let ghost body = text@.skip(from as int);
    assert(text@.subrange(from as int, from as int) =~= Seq::<char>::empty());
    loop
        invariant_except_break
            from <= pos <= len,
            len == text@.len(),
            body == text@.skip(from as int),
            forall|i: int| from <= i < pos ==> is_digit(#[trigger] text@[i]),
            digits_value(text@.subrange(from as int, pos as int)) <= limit ==> value == Some(
                digits_value(text@.subrange(from as int, pos as int)) as u64,
            ),
            digits_value(text@.subrange(from as int, pos as int)) > limit ==> value is None,
        ensures
            from <= pos <= len,
            len == text@.len(),
            forall|i: int| from <= i < pos ==> is_digit(#[trigger] text@[i]),
            pos < len ==> !is_digit(text@[pos as int]),
            digits_value(text@.subrange(from as int, pos as int)) <= limit ==> value == Some(
                digits_value(text@.subrange(from as int, pos as int)) as u64,
            ),
            digits_value(text@.subrange(from as int, pos as int)) > limit ==> value is None,
        decreases len - pos,
    {
        if pos >= len {
            break ;
        }
        let c = text.get_char(pos);
        let digit = char_digit(c);
        match digit {
            None => {
                break ;
            },
            Some(d) => {
                proof {
                    let before = text@.subrange(from as int, pos as int);
                    let after = text@.subrange(from as int, pos as int + 1);
                    assert(after =~= before.push(c));
                    lemma_digits_value_push(before, c);
                }
                value =
                match value {
                    Some(v) => {
                        if limit < d as u64 {
                            None
                        } else if v > (limit - d as u64) / 10 {
                            assert(v * 10 + d > limit) by (nonlinear_arith)
                                requires
                                    v > (limit - d) / 10,
                                    limit >= d,
                                    d >= 0,
                                    v >= 0,
                            ;
                            None
                        } else {
                            assert(v * 10 + d <= limit) by (nonlinear_arith)
                                requires
                                    v <= (limit - d) / 10,
                                    limit >= d,
                                    d >= 0,
                                    v >= 0,
                            ;
                            Some(v * 10 + d as u64)
                        }
                    },
                    None => None,
                };
                pos = pos + 1;
            },
        }
    }
    proof {
        assert forall|i: int| 0 <= i < pos - from implies is_digit(#[trigger] body[i]) by {
            assert(body[i] == text@[from + i]);
        }
        lemma_digit_run(body, pos - from);
    }
    (pos, value)
}

} // verus!
