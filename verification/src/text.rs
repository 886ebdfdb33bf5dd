//! Character classification, decimal rendering and parsing, and the two
//! trusted bridges between `&str`/`String` and `Vec<char>`.

use vstd::prelude::*;

verus! {

/// Relies on `str::chars` and `Iterator::collect`: the characters of a
/// string slice, in order, as a vector.
#[verifier::external_body]
pub fn chars_of(s: &str) -> (r: Vec<char>)
    ensures
        r@ == s@,
{
    s.chars().collect()
}

/// Relies on `Iterator::collect` for `String`: a string whose characters are
/// exactly those of the vector, in order.
#[verifier::external_body]
pub fn string_from_chars(v: &Vec<char>) -> (r: String)
    ensures
        r@ == v@,
{
    v.iter().collect()
}

/// Appends every character of `s` to `dst`.
pub fn push_str_chars(dst: &mut Vec<char>, s: &str)
    ensures
        final(dst)@ == old(dst)@ + s@,
{
    let n: usize = s.unicode_len();
    let mut i: usize = 0;
    while i < n
        invariant
            n == s@.len(),
            i <= n,
            dst@ == old(dst)@ + s@.subrange(0, i as int),
        decreases n - i,
    {
        dst.push(s.get_char(i));
        i = i + 1;
        proof {
            assert(dst@ =~= old(dst)@ + s@.subrange(0, i as int));
        }
    }
    proof {
        assert(dst@ =~= old(dst)@ + s@);
    }
}

pub open spec fn spec_is_digit(c: char) -> bool {
    48 <= c as u32 <= 57
}

pub fn is_digit(c: char) -> (r: bool)
    ensures
        r == spec_is_digit(c),
{
    let u: u32 = c as u32;
    48 <= u && u <= 57
}

pub open spec fn spec_is_letter(c: char) -> bool {
    (65 <= c as u32 <= 90) || (97 <= c as u32 <= 122)
}

pub fn is_letter(c: char) -> (r: bool)
    ensures
        r == spec_is_letter(c),
{
    let u: u32 = c as u32;
    (65 <= u && u <= 90) || (97 <= u && u <= 122)
}

/// Identifier continuation characters: ASCII letters, digits and `_`.
pub open spec fn spec_is_word(c: char) -> bool {
    spec_is_letter(c) || spec_is_digit(c) || c == '_'
}

pub fn is_word(c: char) -> (r: bool)
    ensures
        r == spec_is_word(c),
{
    is_letter(c) || is_digit(c) || c == '_'
}

/// The whitespace characters the character stream filters out: space, tab,
/// carriage return, newline and form feed.
pub open spec fn spec_is_space(c: char) -> bool {
    c == ' ' || c == '\t' || c == '\r' || c == '\n' || c == '\x0C'
}

pub fn is_space(c: char) -> (r: bool)
    ensures
        r == spec_is_space(c),
{
    c == ' ' || c == '\t' || c == '\r' || c == '\n' || c == '\x0C'
}

/// The decimal digit character for a value below ten.
pub open spec fn spec_digit_char(d: nat) -> char {
    if d == 0 {
        '0'
    } else if d == 1 {
        '1'
    } else if d == 2 {
        '2'
    } else if d == 3 {
        '3'
    } else if d == 4 {
        '4'
    } else if d == 5 {
        '5'
    } else if d == 6 {
        '6'
    } else if d == 7 {
        '7'
    } else if d == 8 {
        '8'
    } else {
        '9'
    }
}

/// The numeric value of a decimal digit character.
pub open spec fn spec_char_digit(c: char) -> nat {
    (c as u32 - 48) as nat
}

/// The usual decimal rendering of `n`, most significant digit first, with no
/// leading zeros (`0` renders as `"0"`).
pub open spec fn spec_decimal(n: nat) -> Seq<char>
    decreases n,
{
    if n < 10 {
        seq![spec_digit_char(n)]
    } else {
        spec_decimal(n / 10).push(spec_digit_char(n % 10))
    }
}

fn digit_char(d: u64) -> (r: char)
    requires
        d < 10,
    ensures
        r == spec_digit_char(d as nat),
{
    if d == 0 {
        '0'
    } else if d == 1 {
        '1'
    } else if d == 2 {
        '2'
    } else if d == 3 {
        '3'
    } else if d == 4 {
        '4'
    } else if d == 5 {
        '5'
    } else if d == 6 {
        '6'
    } else if d == 7 {
        '7'
    } else if d == 8 {
        '8'
    } else {
        '9'
    }
}

/// Appends the decimal rendering of `n` to `dst`.
pub fn push_decimal(dst: &mut Vec<char>, n: u64)
    ensures
        final(dst)@ == old(dst)@ + spec_decimal(n as nat),
    decreases n,
{
    if n < 10 {
        dst.push(digit_char(n));
    } else {
        push_decimal(dst, n / 10);
        dst.push(digit_char(n % 10));
    }
}

/// The rendering of a signed value: a minus sign before the magnitude when
/// negative.
pub open spec fn spec_decimal_i64(v: int) -> Seq<char> {
    if v < 0 {
        seq!['-'] + spec_decimal((-v) as nat)
    } else {
        spec_decimal(v as nat)
    }
}

/// Appends the decimal rendering of a signed value to `dst`.
pub fn push_decimal_i64(dst: &mut Vec<char>, v: i64)
    ensures
        final(dst)@ == old(dst)@ + spec_decimal_i64(v as int),
{
    if v < 0 {
        dst.push('-');
        let m: u64 = if v == i64::MIN {
            9223372036854775808u64
        } else {
            (-v) as u64
        };
        assert(m as nat == (-(v as int)) as nat);
        push_decimal(dst, m);
        proof {
            assert(dst@ =~= old(dst)@ + spec_decimal_i64(v as int));
        }
    } else {
        push_decimal(dst, v as u64);
    }
}

/// The value of a run of decimal digit characters, most significant first.
pub open spec fn spec_digits_value(s: Seq<char>) -> nat
    decreases s.len(),
{
    if s.len() == 0 {
        0
    } else {
        spec_digits_value(s.drop_last()) * 10 + spec_char_digit(s.last())
    }
}

proof fn lemma_digits_value_prefix_le(s: Seq<char>, i: int)
    requires
        0 <= i <= s.len(),
        forall|k: int| 0 <= k < s.len() ==> spec_is_digit(#[trigger] s[k]),
    ensures
        spec_digits_value(s.subrange(0, i)) <= spec_digits_value(s),
    decreases s.len() - i,
{
    if i < s.len() {
        let t = s.subrange(0, i + 1);
        assert(t.drop_last() =~= s.subrange(0, i));
        assert(spec_digits_value(s.subrange(0, i)) <= spec_digits_value(t)) by {
            assert(spec_digits_value(t) == spec_digits_value(t.drop_last()) * 10
                + spec_char_digit(t.last()));
            assert(spec_digits_value(t.drop_last()) * 10 >= spec_digits_value(t.drop_last()))
                by (nonlinear_arith);
        }
        lemma_digits_value_prefix_le(s, i + 1);
    } else {
        assert(s.subrange(0, i) =~= s);
    }
}

/// Parses a run of decimal digits as an `i64`; `None` when the value exceeds
/// `i64::MAX`.
pub fn parse_digits(digits: &Vec<char>) -> (r: Option<i64>)
    requires
        forall|k: int| 0 <= k < digits@.len() ==> spec_is_digit(#[trigger] digits@[k]),
    ensures
        match r {
            Some(v) => 0 <= v && v as nat == spec_digits_value(digits@),
            None => spec_digits_value(digits@) > i64::MAX as nat,
        },
{
    let mut acc: u64 = 0;
    let mut i: usize = 0;
    let n: usize = digits.len();
    while i < n
        invariant
            n == digits@.len(),
            i <= n,
            forall|k: int| 0 <= k < digits@.len() ==> spec_is_digit(#[trigger] digits@[k]),
            acc as nat == spec_digits_value(digits@.subrange(0, i as int)),
            acc <= i64::MAX as u64,
        decreases n - i,
    {
        let c: char = digits[i];
        let d: u64 = (c as u32 as u64) - 48;
        assert(d == spec_char_digit(digits@[i as int]));
        if acc > (9223372036854775807u64 - d) / 10 {
            proof {
                let p = digits@.subrange(0, i + 1);
                assert(p.drop_last() =~= digits@.subrange(0, i as int));
                assert(spec_digits_value(p) == acc as nat * 10 + d as nat);
                assert(acc as nat * 10 + d as nat > i64::MAX as nat) by (nonlinear_arith)
                    requires
                        acc > (9223372036854775807u64 - d) / 10,
                        d < 10,
                        acc <= i64::MAX as u64,
                ;
                lemma_digits_value_prefix_le(digits@, i + 1);
            }
            return None;
        }
        proof {
            assert(acc * 10 + d <= 9223372036854775807u64) by (nonlinear_arith)
                requires
                    acc <= (9223372036854775807u64 - d) / 10,
                    d < 10,
            ;
            let p = digits@.subrange(0, i + 1);
            assert(p.drop_last() =~= digits@.subrange(0, i as int));
        }
        acc = acc * 10 + d;
        i = i + 1;
    }
    proof {
        assert(digits@.subrange(0, n as int) =~= digits@);
    }
    Some(acc as i64)
}

/// Whether two string slices hold the same characters.
pub fn str_eq(a: &str, b: &str) -> (r: bool)
    ensures
        r == (a@ == b@),
{
    let n: usize = a.unicode_len();
    let m: usize = b.unicode_len();
    if n != m {
        proof {
            assert(a@.len() != b@.len());
        }
        return false;
    }
    let mut i: usize = 0;
    while i < n
        invariant
            n == a@.len(),
            n == b@.len(),
            i <= n,
            forall|k: int| 0 <= k < i ==> a@[k] == b@[k],
        decreases n - i,
    {
        if a.get_char(i) != b.get_char(i) {
            return false;
        }
        i = i + 1;
    }
    proof {
        assert(a@ =~= b@);
    }
    true
}

} // verus!
