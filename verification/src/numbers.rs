//! Decimal integers: reading them from tokens and writing them into text.

use vstd::prelude::*;

verus! {

/// `std::num::ParseIntError`, the error of reading an integer from text.
#[verifier::external_type_specification]
#[verifier::external_body]
pub struct ExParseIntError(std::num::ParseIntError);

/// `String::push` appends the character `ch` to `s`.
pub assume_specification[ std::string::String::push ](s: &mut std::string::String, ch: char)
    ensures
        final(s)@ == old(s)@.push(ch),
;

/// Whether `c` is one of the digits `0` to `9`.
pub open spec fn is_digit(c: char) -> bool {
    '0' <= c <= '9'
}

/// The value of the digit `c`.
pub open spec fn digit_value(c: char) -> nat {
    ((c as int) - ('0' as int)) as nat
}

/// Whether `d` is a nonempty sequence of digits.
pub open spec fn is_digits(d: Seq<char>) -> bool {
    d.len() > 0 && forall|i: int| 0 <= i < d.len() ==> is_digit(#[trigger] d[i])
}

/// The value of the decimal numeral `d`.
pub open spec fn decimal_value(d: Seq<char>) -> nat
    decreases d.len(),
{
    if d.len() == 0 {
        0
    } else {
        decimal_value(d.drop_last()) * 10 + digit_value(d.last())
    }
}

/// The value of the integer literal `w`: digits after an optional `+` sign, or, where
/// `signed`, also after a `-` sign.
pub open spec fn integer_literal(w: Seq<char>, signed: bool) -> Option<int> {
    if w.len() > 0 && (w[0] == '+' || (signed && w[0] == '-')) {
        if is_digits(w.drop_first()) {
            if w[0] == '-' {
                Some(-(decimal_value(w.drop_first()) as int))
            } else {
                Some(decimal_value(w.drop_first()) as int)
            }
        } else {
            None
        }
    } else if is_digits(w) {
        Some(decimal_value(w) as int)
    } else {
        None
    }
}

/// The integer that `w` reads as, in a type whose values run from `min` to `max`.
pub open spec fn parse_integer(w: Seq<char>, signed: bool, min: int, max: int) -> Option<int> {
    match integer_literal(w, signed) {
        Some(v) => if min <= v <= max {
            Some(v)
        } else {
            None
        },
        None => None,
    }
}

/// `<u32 as FromStr>::from_str` reads an unsigned decimal literal that fits in a `u32`.
#[verifier::external_body]
pub(crate) fn parse_u32(s: &str) -> (res: Result<u32, std::num::ParseIntError>)
    ensures
        match res {
            Ok(v) => parse_integer(s@, false, 0, u32::MAX as int) == Some(v as int),
            Err(_) => parse_integer(s@, false, 0, u32::MAX as int) is None,
        },
{
    s.parse::<u32>()
}

/// `<u64 as FromStr>::from_str` reads an unsigned decimal literal that fits in a `u64`.
#[verifier::external_body]
pub(crate) fn parse_u64(s: &str) -> (res: Result<u64, std::num::ParseIntError>)
    ensures
        match res {
            Ok(v) => parse_integer(s@, false, 0, u64::MAX as int) == Some(v as int),
            Err(_) => parse_integer(s@, false, 0, u64::MAX as int) is None,
        },
{
    s.parse::<u64>()
}

/// `<i32 as FromStr>::from_str` reads a signed decimal literal that fits in an `i32`.
#[verifier::external_body]
pub(crate) fn parse_i32(s: &str) -> (res: Result<i32, std::num::ParseIntError>)
    ensures
        match res {
            Ok(v) => parse_integer(s@, true, i32::MIN as int, i32::MAX as int) == Some(v as int),
            Err(_) => parse_integer(s@, true, i32::MIN as int, i32::MAX as int) is None,
        },
{
    s.parse::<i32>()
}

/// `<i64 as FromStr>::from_str` reads a signed decimal literal that fits in an `i64`.
#[verifier::external_body]
pub(crate) fn parse_i64(s: &str) -> (res: Result<i64, std::num::ParseIntError>)
    ensures
        match res {
            Ok(v) => parse_integer(s@, true, i64::MIN as int, i64::MAX as int) == Some(v as int),
            Err(_) => parse_integer(s@, true, i64::MIN as int, i64::MAX as int) is None,
        },
{
    s.parse::<i64>()
}

/// `<NonZeroU32 as FromStr>::from_str` reads an unsigned decimal literal whose value is
/// from 1 to `u32::MAX`; the value is handed out as a `u32`.
#[verifier::external_body]
pub(crate) fn parse_nonzero_u32(s: &str) -> (res: Result<u32, std::num::ParseIntError>)
    ensures
        match res {
            Ok(v) => parse_integer(s@, false, 1, u32::MAX as int) == Some(v as int),
            Err(_) => parse_integer(s@, false, 1, u32::MAX as int) is None,
        },
{
    match s.parse::<std::num::NonZeroU32>() {
        Ok(n) => Ok(n.get()),
        Err(e) => Err(e),
    }
}

/// The digit character for `d`, below ten.
pub open spec fn digit_char(d: nat) -> char {
    ((d + ('0' as int)) as u32) as char
}

/// The decimal numeral of `n`, without leading zeros.
pub open spec fn decimal(n: nat) -> Seq<char>
    decreases n,
{
    if n < 10 {
        seq![digit_char(n)]
    } else {
        decimal(n / 10).push(digit_char(n % 10))
    }
}

/// The decimal numeral of `v`, with a `-` sign where it is negative.
pub open spec fn signed_decimal(v: int) -> Seq<char> {
    if v < 0 {
        seq!['-'] + decimal((-v) as nat)
    } else {
        decimal(v as nat)
    }
}

/// Appends the decimal numeral of `n` to `out`.
pub fn push_decimal(out: &mut String, n: u64)
    ensures
        final(out)@ == old(out)@ + decimal(n as nat),
    decreases n,
{
    if n >= 10 {
        push_decimal(out, n / 10);
    }
    let d: u8 = (n % 10) as u8;
    let c: char = (48u8 + d) as char;
    assert(c == digit_char((n % 10) as nat));
    out.push(c);
    proof {
        if n < 10 {
            assert(n % 10 == n);
        }
    }
}

/// Appends the decimal numeral of `v`, with its sign, to `out`.
pub fn push_signed_decimal(out: &mut String, v: i64)
    ensures
        final(out)@ == old(out)@ + signed_decimal(v as int),
{
    if v < 0 {
        out.push('-');
        let m: u64 = if v == i64::MIN {
            9223372036854775808u64
        } else {
            (-v) as u64
        };
        push_decimal(out, m);
        assert(old(out)@ + signed_decimal(v as int) =~= old(out)@.push('-') + decimal(m as nat));
    } else {
        push_decimal(out, v as u64);
    }
}


/// The digit character of `d` is a digit, of value `d`.
pub proof fn lemma_digit_char(d: nat)
    requires
        d < 10,
    ensures
        is_digit(digit_char(d)),
        digit_value(digit_char(d)) == d,
{
    let u = (d + ('0' as int)) as u32;
    assert(48 <= u <= 57);
    vstd::utf8::char_u32_cast(digit_char(d), u);
    assert(digit_char(d) as u32 == u) by {
        assert((u as char) as u32 == u);
    }
}

/// A decimal numeral is digits whose value is the number it was written from.
pub proof fn lemma_decimal(n: nat)
    ensures
        is_digits(decimal(n)),
        decimal_value(decimal(n)) == n,
        decimal(n).len() > 0,
    decreases n,
{
    if n < 10 {
        lemma_digit_char(n);
        assert(decimal(n).drop_last() =~= Seq::<char>::empty());
        assert(decimal_value(Seq::<char>::empty()) == 0);
        assert(decimal(n).last() == digit_char(n));
        assert(decimal_value(decimal(n)) == n);
    } else {
        lemma_decimal(n / 10);
        lemma_digit_char(n % 10);
        let d = decimal(n);
        assert(d.drop_last() =~= decimal(n / 10));
        assert(d.last() == digit_char(n % 10));
        assert((n / 10) * 10 + n % 10 == n) by (nonlinear_arith);
        assert(decimal_value(d) == decimal_value(decimal(n / 10)) * 10 + digit_value(
            digit_char(n % 10),
        ));
        assert forall|i: int| 0 <= i < d.len() implies is_digit(#[trigger] d[i]) by {
            if i < d.len() - 1 {
                assert(d[i] == decimal(n / 10)[i]);
            }
        }
    }
}

/// An unsigned number reads back from its decimal numeral.
pub proof fn lemma_decimal_reads_back(n: nat, max: int)
    requires
        n <= max,
    ensures
        parse_integer(decimal(n), false, 0, max) == Some(n as int),
        parse_integer(decimal(n), true, 0, max) == Some(n as int),
{
    lemma_decimal(n);
    assert(is_digit(decimal(n)[0]));
}

/// A number within the bounds of a type reads back from its decimal numeral.
pub proof fn lemma_decimal_reads_back_from(n: nat, min: int, max: int)
    requires
        0 <= min <= n <= max,
    ensures
        parse_integer(decimal(n), false, min, max) == Some(n as int),
{
    lemma_decimal(n);
    assert(is_digit(decimal(n)[0]));
}

/// A signed number reads back from its numeral.
pub proof fn lemma_signed_decimal_reads_back(v: int, min: int, max: int)
    requires
        min <= v <= max,
    ensures
        parse_integer(signed_decimal(v), true, min, max) == Some(v),
{
    if v < 0 {
        let m = (-v) as nat;
        lemma_decimal(m);
        assert(signed_decimal(v).drop_first() =~= decimal(m));
    } else {
        lemma_decimal(v as nat);
        assert(is_digit(decimal(v as nat)[0]));
    }
}

/// A decimal numeral is a word.
pub proof fn lemma_decimal_is_word(n: nat)
    ensures
        crate::text_lemmas::is_word(decimal(n)),
{
    lemma_decimal(n);
    let s = decimal(n);
    assert forall|i: int| 0 <= i < s.len() implies !crate::tokens::is_separator_char(
        #[trigger] s[i],
    ) by {
        assert(is_digit(s[i]));
    }
}

/// A numeral holds no space or tab.
pub proof fn lemma_signed_decimal_is_word(v: int)
    ensures
        crate::text_lemmas::is_word(signed_decimal(v)),
{
    if v < 0 {
        lemma_decimal((-v) as nat);
        let s = signed_decimal(v);
        assert forall|i: int| 0 <= i < s.len() implies !crate::tokens::is_separator_char(
            #[trigger] s[i],
        ) by {
            if i > 0 {
                assert(s[i] == decimal((-v) as nat)[i - 1]);
                assert(is_digit(decimal((-v) as nat)[i - 1]));
            }
        }
    } else {
        lemma_decimal(v as nat);
        let s = signed_decimal(v);
        assert forall|i: int| 0 <= i < s.len() implies !crate::tokens::is_separator_char(
            #[trigger] s[i],
        ) by {
            assert(is_digit(s[i]));
        }
    }
}

} // verus!
