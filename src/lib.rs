//! Parses an integer argument written either in decimal (`"255"`, `"-12"`) or
//! in hexadecimal with an optional lowercase `0x` prefix (`"0xFF"`, `"ff"`).
use vstd::prelude::*;
use vstd::string::StrSliceExecFns;

use crate::lemmas::{lemma_digits_value_nonneg, lemma_zero_value_digits, lemma_zeros_value};
use crate::literal::{digit_runs_fit, digit_value, unsigned_part, zeros_only};

pub mod lemmas;
pub mod literal;
pub mod radix;

pub use literal::{
    all_digits, digits_value, literal_value, maybe_hex_value, starts_with_sign, strip_hex_prefix,
};
pub use radix::{ParseError, RadixParse};

verus! {

/// Parses `arg_string` as a decimal literal of `T` (an optional `+` or `-`,
/// then digits); where that fails, as the hexadecimal digits that follow an
/// optional lowercase `0x` prefix.
///
/// A sign is accepted in decimal only: `"-0xAB"` and `"+0xAB"` fail.
pub fn maybe_hex<T: RadixParse>(arg_string: &str) -> (r: Result<T, ParseError>)
    ensures
        match r {
            Ok(v) => maybe_hex_value(arg_string@, T::lowest(), T::highest()) == Some(v.value()),
            Err(e) => {
                let hex = strip_hex_prefix(arg_string@);
                &&& maybe_hex_value(arg_string@, T::lowest(), T::highest()) is None
                &&& (e == ParseError::Empty <==> hex.len() == 0)
                &&& starts_with_sign(hex) ==> e == ParseError::InvalidDigit
                &&& all_digits(hex, 16) && digits_value(hex, 16) > T::highest() ==> e
                    == ParseError::PosOverflow
                &&& hex.len() > 0 && !all_digits(hex, 16) && digit_runs_fit(
                    hex,
                    16,
                    false,
                    T::lowest(),
                    T::highest(),
                ) ==> e == ParseError::InvalidDigit
            },
        },
{
    proof {
        T::lemma_range();
    }
    let decimal = T::from_str_radix(arg_string, 10);
    if let Ok(v) = decimal {
        proof {
            // A literal that the type's parser takes is also a decimal literal.
            if arg_string@.len() > 0 {
                assert(digit_value(arg_string@[0]) >= 10 || arg_string@[0] != '-');
            }
            assert(literal_value(arg_string@, 10, true) == literal_value(
                arg_string@,
                10,
                T::is_signed(),
            ));
        }
        return Ok(v);
    }
    let n = arg_string.unicode_len();
    if n >= 2 && arg_string.get_char(0) == '-' {
        // A minus sign before zeros denotes zero, which every type holds; the
        // parser of an unsigned type refuses the sign.
        let zeros = arg_string.substring_char(1, n);
        if is_all_zeros(zeros) {
            proof {
                lemma_zeros_value(zeros@);
                assert(arg_string@.drop_first() =~= zeros@);
                assert(digit_value(zeros@[0]) < 10);
            }
            return T::from_str_radix(zeros, 10);
        }
    }
    proof {
        if T::is_signed() {
            assert(literal_value(arg_string@, 10, true) == literal_value(
                arg_string@,
                10,
                T::is_signed(),
            ));
        } else if arg_string@.len() > 0 && arg_string@[0] == '-' && all_digits(
            arg_string@.drop_first(),
            10,
        ) {
            let d = arg_string@.drop_first();
            lemma_digits_value_nonneg(d, 10);
            if digits_value(d, 10) == 0 {
                lemma_zero_value_digits(d);
                assert(zeros_only(d));
                assert(false);
            }
        }
    }
    let prefixed = n >= 2 && arg_string.get_char(0) == '0' && arg_string.get_char(1) == 'x';
    let digits = if prefixed {
        arg_string.substring_char(2, n)
    } else {
        arg_string
    };
    assert(digits@ == strip_hex_prefix(arg_string@));
    let first = if digits.unicode_len() > 0 {
        Some(digits.get_char(0))
    } else {
        None
    };
    if first == Some('+') || first == Some('-') {
        assert(digit_value(digits@[0]) >= 16);
        Err(ParseError::InvalidDigit)
    } else {
        // Without a sign, the literal reads the same whatever the type's signedness.
        assert(literal_value(digits@, 16, T::is_signed()) == literal_value(digits@, 16, false));
        assert(unsigned_part(digits@, T::is_signed()) == unsigned_part(digits@, false));
        T::from_str_radix(digits, 16)
    }
}

/// Whether `s` is one or more `0` characters.
fn is_all_zeros(s: &str) -> (r: bool)
    ensures
        r == zeros_only(s@),
{
    let n = s.unicode_len();
    if n == 0 {
        return false;
    }
    let mut i: usize = 0;
    while i < n
        invariant
            n == s@.len(),
            0 <= i <= n,
            forall|j: int| 0 <= j < i ==> s@[j] == '0',
        decreases n - i,
    {
        if s.get_char(i) != '0' {
            return false;
        }
        i = i + 1;
    }
    true
}

} // verus!
