//! General facts about what `maybe_hex` returns.
use vstd::prelude::*;

use crate::literal::{
    all_digits,
    bounded_literal,
    digit_char,
    digit_value,
    digits_of,
    digits_value,
    format_decimal,
    format_hex,
    literal_value,
    maybe_hex_value,
    same_ignoring_case,
    same_seq_ignoring_case,
    starts_with_sign,
    strip_hex_prefix,
    zeros_only,
};
use crate::radix::RadixParse;

verus! {

/// A decimal literal of `T`, an optional `+` or `-` and then decimal digits,
/// denotes its value wherever that value lies in the range of `T`.
pub proof fn lemma_decimal_literal<T: RadixParse>(sign: Seq<char>, digits: Seq<char>)
    requires
        sign.len() == 0 || sign == seq!['+'] || sign == seq!['-'],
        all_digits(digits, 10),
        T::lowest() <= (if sign == seq!['-'] {
            -digits_value(digits, 10)
        } else {
            digits_value(digits, 10)
        }) <= T::highest(),
    ensures
        maybe_hex_value(sign + digits, T::lowest(), T::highest()) == Some(
            if sign == seq!['-'] {
                -digits_value(digits, 10)
            } else {
                digits_value(digits, 10)
            },
        ),
{
    let s = sign + digits;
    let v = digits_value(digits, 10);
    if sign.len() == 0 {
        assert(s =~= digits);
        assert(digit_value(s[0]) < 10);
        assert(literal_value(s, 10, true) == Some(v));
    } else {
        assert(s.drop_first() =~= digits);
        assert(s[0] == sign[0]);
        if sign == seq!['+'] {
            assert(s[0] == '+');
            assert(literal_value(s, 10, true) == Some(v));
        } else {
            assert(s[0] == '-');
            assert(literal_value(s, 10, true) == Some(-v));
        }
    }
}

/// `0x` followed by hexadecimal digits whose value fits in `T` denotes that
/// value.
pub proof fn lemma_hex_literal<T: RadixParse>(digits: Seq<char>)
    requires
        all_digits(digits, 16),
        digits_value(digits, 16) <= T::highest(),
    ensures
        maybe_hex_value(seq!['0', 'x'] + digits, T::lowest(), T::highest()) == Some(
            digits_value(digits, 16),
        ),
{
    T::lemma_range();
    let s = seq!['0', 'x'] + digits;
    assert(s[0] == '0' && s[1] == 'x');
    assert(digit_value(s[1]) >= 10);
    assert(literal_value(s, 10, true) is None);
    assert(strip_hex_prefix(s) =~= digits);
    assert(digit_value(digits[0]) < 16);
    lemma_digits_value_nonneg(digits, 16);
}

/// `0x` followed by hexadecimal digits whose value exceeds the range of `T`
/// denotes nothing.
pub proof fn lemma_hex_too_large<T: RadixParse>(digits: Seq<char>)
    requires
        all_digits(digits, 16),
        digits_value(digits, 16) > T::highest(),
    ensures
        maybe_hex_value(seq!['0', 'x'] + digits, T::lowest(), T::highest()) is None,
{
    let s = seq!['0', 'x'] + digits;
    assert(s[0] == '0' && s[1] == 'x');
    assert(digit_value(s[1]) >= 10);
    assert(strip_hex_prefix(s) =~= digits);
    assert(digit_value(digits[0]) < 16);
}

/// Hexadecimal digits are read without regard to letter case: `0x` followed by
/// either of two digit strings that differ only in case denotes one value.
pub proof fn lemma_hex_ignores_case<T: RadixParse>(a: Seq<char>, b: Seq<char>)
    requires
        all_digits(a, 16),
        same_seq_ignoring_case(a, b),
    ensures
        maybe_hex_value(seq!['0', 'x'] + a, T::lowest(), T::highest()) == maybe_hex_value(
            seq!['0', 'x'] + b,
            T::lowest(),
            T::highest(),
        ),
{
    lemma_digits_value_ignoring_case(a, b, 16);
    assert forall|i: int| 0 <= i < b.len() implies #[trigger] digit_value(b[i]) < 16 by {
        assert(digit_value(a[i]) < 16);
    }
    assert(all_digits(b, 16));
    if digits_value(a, 16) <= T::highest() {
        lemma_hex_literal::<T>(a);
        lemma_hex_literal::<T>(b);
    } else {
        lemma_hex_too_large::<T>(a);
        lemma_hex_too_large::<T>(b);
    }
}

/// A non-negative value of `T`, written in decimal, or as `0x` and hexadecimal
/// digits in either case, reads back as itself.
pub proof fn lemma_round_trip<T: RadixParse>(v: T)
    requires
        v.value() >= 0,
    ensures
        maybe_hex_value(format_decimal(v.value() as nat), T::lowest(), T::highest()) == Some(
            v.value(),
        ),
        maybe_hex_value(format_hex(v.value() as nat), T::lowest(), T::highest()) == Some(
            v.value(),
        ),
        forall|h: Seq<char>|
            #[trigger] same_seq_ignoring_case(digits_of(v.value() as nat, 16), h)
                ==> maybe_hex_value(seq!['0', 'x'] + h, T::lowest(), T::highest()) == Some(
                v.value(),
            ),
{
    v.lemma_value_in_range();
    let n = v.value() as nat;
    lemma_digits_of(n, 10);
    lemma_digits_of(n, 16);
    let dec = digits_of(n, 10);
    assert(Seq::<char>::empty() + dec =~= dec);
    lemma_decimal_literal::<T>(Seq::<char>::empty(), dec);
    lemma_hex_literal::<T>(digits_of(n, 16));
    assert forall|h: Seq<char>| #[trigger] same_seq_ignoring_case(digits_of(n, 16), h) implies maybe_hex_value(
        seq!['0', 'x'] + h,
        T::lowest(),
        T::highest(),
    ) == Some(v.value()) by {
        lemma_hex_ignores_case::<T>(digits_of(n, 16), h);
    }
}

/// One or more `0` characters are decimal digits of value zero.
pub proof fn lemma_zeros_value(d: Seq<char>)
    requires
        zeros_only(d),
    ensures
        all_digits(d, 10),
        digits_value(d, 10) == 0,
    decreases d.len(),
{
    assert forall|i: int| 0 <= i < d.len() implies #[trigger] digit_value(d[i]) < 10 by {
        assert(d[i] == '0');
    }
    let rest = d.drop_last();
    if rest.len() > 0 {
        assert forall|i: int| 0 <= i < rest.len() implies rest[i] == '0' by {
            assert(rest[i] == d[i]);
        }
        lemma_zeros_value(rest);
    } else {
        assert(rest =~= Seq::<char>::empty());
    }
    assert(digits_value(rest, 10) == 0);
    assert(d.last() == '0');
    assert(digit_value(d.last()) == 0);
}

/// Decimal digits of value zero are all `0`.
pub proof fn lemma_zero_value_digits(d: Seq<char>)
    requires
        all_digits(d, 10),
        digits_value(d, 10) == 0,
    ensures
        zeros_only(d),
    decreases d.len(),
{
    let rest = d.drop_last();
    let last = d.last();
    assert(digit_value(d[d.len() - 1]) < 10);
    lemma_digits_value_nonneg(rest, 10);
    assert(digits_value(rest, 10) == 0 && digit_value(last) == 0) by (nonlinear_arith)
        requires
            digits_value(rest, 10) >= 0,
            0 <= digit_value(last) < 10,
            digits_value(rest, 10) * 10 + digit_value(last) == 0,
    ;
    assert(last == '0');
    if rest.len() > 0 {
        assert forall|i: int| 0 <= i < rest.len() implies #[trigger] digit_value(rest[i]) < 10 by {
            assert(rest[i] == d[i]);
        }
        lemma_zero_value_digits(rest);
        assert forall|i: int| 0 <= i < d.len() implies d[i] == '0' by {
            if i < rest.len() {
                assert(rest[i] == d[i]);
            }
        }
    } else {
        assert forall|i: int| 0 <= i < d.len() implies d[i] == '0' by {
            assert(i == 0);
        }
    }
}

/// Digits of a radix have a non-negative value.
pub proof fn lemma_digits_value_nonneg(digits: Seq<char>, radix: int)
    requires
        radix >= 2,
        forall|i: int| 0 <= i < digits.len() ==> #[trigger] digit_value(digits[i]) < radix,
    ensures
        digits_value(digits, radix) >= 0,
    decreases digits.len(),
{
    if digits.len() > 0 {
        let rest = digits.drop_last();
        assert forall|i: int| 0 <= i < rest.len() implies #[trigger] digit_value(rest[i])
            < radix by {
            assert(rest[i] == digits[i]);
        }
        lemma_digits_value_nonneg(rest, radix);
        assert(digit_value(digits[digits.len() - 1]) < radix);
        assert(digits_value(rest, radix) * radix >= 0) by (nonlinear_arith)
            requires
                digits_value(rest, radix) >= 0,
                radix >= 2,
        ;
    }
}

/// Digit strings that agree position by position up to letter case have the
/// same value.
pub proof fn lemma_digits_value_ignoring_case(a: Seq<char>, b: Seq<char>, radix: int)
    requires
        same_seq_ignoring_case(a, b),
    ensures
        digits_value(a, radix) == digits_value(b, radix),
        forall|i: int| 0 <= i < a.len() ==> digit_value(#[trigger] a[i]) == digit_value(b[i]),
    decreases a.len(),
{
    assert forall|i: int| 0 <= i < a.len() implies digit_value(#[trigger] a[i]) == digit_value(
        b[i],
    ) by {
        assert(same_ignoring_case(a[i], b[i]));
    }
    if a.len() > 0 {
        let (ra, rb) = (a.drop_last(), b.drop_last());
        assert forall|i: int| 0 <= i < ra.len() implies same_ignoring_case(#[trigger] ra[i], rb[i]) by {
            assert(ra[i] == a[i] && rb[i] == b[i]);
            assert(same_ignoring_case(a[i], b[i]));
        }
        lemma_digits_value_ignoring_case(ra, rb, radix);
        assert(same_ignoring_case(a[a.len() - 1], b[b.len() - 1]));
    }
}

/// Each digit character reads back as its digit.
pub proof fn lemma_digit_char(d: int)
    requires
        0 <= d < 16,
    ensures
        digit_value(digit_char(d)) == d,
{
    let cs = seq!['0', '1', '2', '3', '4', '5', '6', '7', '8', '9', 'a', 'b', 'c', 'd', 'e', 'f'];
    assert(digit_char(d) == cs[d]);
}

/// The digits of `n` in radix 10 or 16 are digits of that radix and read
/// back as `n`.
pub proof fn lemma_digits_of(n: nat, radix: nat)
    requires
        radix == 10 || radix == 16,
    ensures
        all_digits(digits_of(n, radix), radix as int),
        digits_value(digits_of(n, radix), radix as int) == n,
    decreases n,
{
    let s = digits_of(n, radix);
    if n < radix {
        lemma_digit_char(n as int);
        assert(s == seq![digit_char(n as int)]);
        assert(s.drop_last() =~= Seq::<char>::empty());
        assert(digits_value(s.drop_last(), radix as int) == 0);
    } else {
        assert(n / radix < n) by (nonlinear_arith)
            requires
                radix >= 2,
                n >= radix,
        ;
        let q = n / radix;
        let d = (n % radix) as int;
        lemma_digits_of(q, radix);
        lemma_digit_char(d);
        let rest = digits_of(q, radix);
        assert(s == rest.push(digit_char(d)));
        assert(s.drop_last() =~= rest);
        assert forall|i: int| 0 <= i < s.len() implies #[trigger] digit_value(s[i])
            < radix as int by {
            if i < rest.len() {
                assert(s[i] == rest[i]);
            }
        }
        assert(q * radix + d == n) by (nonlinear_arith)
            requires
                q == n / radix,
                d == n % radix,
                radix > 0,
        ;
        assert(s.last() == digit_char(d));
        assert(digits_value(s, radix as int) == digits_value(rest, radix as int) * (radix as int)
            + d);
    }
}

} // verus!
