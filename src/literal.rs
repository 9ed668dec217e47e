//! Mathematical model of integer literals: digits, their values, and the
//! grammar accepted by the radix parsers of the primitive integer types.
use vstd::prelude::*;

verus! {

/// The value of `c` as a digit in any radix up to 36, or 36 when `c` is no digit.
pub open spec fn digit_value(c: char) -> int {
    if '0' <= c && c <= '9' {
        (c as int) - ('0' as int)
    } else if 'a' <= c && c <= 'z' {
        (c as int) - ('a' as int) + 10
    } else if 'A' <= c && c <= 'Z' {
        (c as int) - ('A' as int) + 10
    } else {
        36
    }
}

/// `s` is a non-empty run of digits of the given radix.
pub open spec fn all_digits(s: Seq<char>, radix: int) -> bool {
    s.len() > 0 && forall|i: int| 0 <= i < s.len() ==> #[trigger] digit_value(s[i]) < radix
}

/// The positional value of the digits in `s`, most significant first.
pub open spec fn digits_value(s: Seq<char>, radix: int) -> int
    decreases s.len(),
{
    if s.len() == 0 {
        0
    } else {
        digits_value(s.drop_last(), radix) * radix + digit_value(s.last())
    }
}

/// The value of `s` as an integer literal of the given radix: an optional `+`
/// (or `-`, where `signed`) followed by at least one digit.
pub open spec fn literal_value(s: Seq<char>, radix: int, signed: bool) -> Option<int> {
    if s.len() > 0 && s[0] == '+' && all_digits(s.drop_first(), radix) {
        Some(digits_value(s.drop_first(), radix))
    } else if signed && s.len() > 0 && s[0] == '-' && all_digits(s.drop_first(), radix) {
        Some(-digits_value(s.drop_first(), radix))
    } else if all_digits(s, radix) {
        Some(digits_value(s, radix))
    } else {
        None
    }
}

/// The value of `s` as a literal of the given radix, where it lies in `[min, max]`.
pub open spec fn bounded_literal(s: Seq<char>, radix: int, signed: bool, min: int, max: int) -> Option<
    int,
> {
    match literal_value(s, radix, signed) {
        Some(n) => if min <= n && n <= max {
            Some(n)
        } else {
            None
        },
        None => None,
    }
}

/// The characters of `s` before position `k` are all digits of `radix`.
pub open spec fn digits_before(s: Seq<char>, k: int, radix: int) -> bool {
    forall|j: int| 0 <= j < k ==> #[trigger] digit_value(s[j]) < radix
}

/// `s` without the leading sign that a literal of the given signedness may carry.
pub open spec fn unsigned_part(s: Seq<char>, signed: bool) -> Seq<char> {
    if s.len() > 0 && (s[0] == '+' || signed && s[0] == '-') {
        s.drop_first()
    } else {
        s
    }
}

/// Every run of digits at the start of `s`, after its sign, has a value in
/// `[min, max]`: reading `s` digit by digit never leaves the range.
pub open spec fn digit_runs_fit(s: Seq<char>, radix: int, signed: bool, min: int, max: int) -> bool {
    let body = unsigned_part(s, signed);
    let negative = signed && s.len() > 0 && s[0] == '-';
    forall|k: int|
        0 <= k <= body.len() && #[trigger] digits_before(body, k, radix) ==> {
            let v = digits_value(body.subrange(0, k), radix);
            min <= (if negative {
                -v
            } else {
                v
            }) <= max
        }
}

/// `s` with one leading lowercase `0x` removed, where it has one.
pub open spec fn strip_hex_prefix(s: Seq<char>) -> Seq<char> {
    if s.len() >= 2 && s[0] == '0' && s[1] == 'x' {
        s.subrange(2, s.len() as int)
    } else {
        s
    }
}

/// `s` is one or more `0` characters.
pub open spec fn zeros_only(s: Seq<char>) -> bool {
    s.len() > 0 && forall|i: int| 0 <= i < s.len() ==> s[i] == '0'
}

/// `s` starts with a sign character.
pub open spec fn starts_with_sign(s: Seq<char>) -> bool {
    s.len() > 0 && (s[0] == '+' || s[0] == '-')
}

/// What `s` denotes in a type whose values are `[min, max]`: its decimal value
/// where it is a decimal literal (an optional `+` or `-`, then digits) in
/// range, else the value of its hexadecimal digits (after an optional `0x`,
/// with no sign) where they are in range.
pub open spec fn maybe_hex_value(s: Seq<char>, min: int, max: int) -> Option<int> {
    match bounded_literal(s, 10, true, min, max) {
        Some(n) => Some(n),
        None => if starts_with_sign(strip_hex_prefix(s)) {
            None
        } else {
            bounded_literal(strip_hex_prefix(s), 16, false, min, max)
        },
    }
}

/// `c` and `d` are the same character, or the same ASCII letter in the two cases.
pub open spec fn same_ignoring_case(c: char, d: char) -> bool {
    ||| c == d
    ||| 'a' <= c && c <= 'z' && (c as int) - (d as int) == 32
    ||| 'a' <= d && d <= 'z' && (d as int) - (c as int) == 32
}

/// `a` and `b` have the same length and agree position by position up to
/// letter case.
pub open spec fn same_seq_ignoring_case(a: Seq<char>, b: Seq<char>) -> bool {
    a.len() == b.len() && forall|i: int| 0 <= i < a.len() ==> same_ignoring_case(#[trigger] a[i], b[i])
}

/// The lowercase character of digit `d`, for `0 <= d < 16`.
pub open spec fn digit_char(d: int) -> char {
    seq!['0', '1', '2', '3', '4', '5', '6', '7', '8', '9', 'a', 'b', 'c', 'd', 'e', 'f'][d]
}

/// The digits of `n` in `radix` (2 to 16), most significant first, without
/// leading zeros.
pub open spec fn digits_of(n: nat, radix: nat) -> Seq<char>
    decreases n,
{
    if radix < 2 || n < radix {
        seq![digit_char(n as int)]
    } else {
        proof {
            assert(n / radix < n) by (nonlinear_arith)
                requires
                    radix >= 2,
                    n >= radix,
            ;
        }
        digits_of(n / radix, radix).push(digit_char((n % radix) as int))
    }
}

/// `n` written in decimal.
pub open spec fn format_decimal(n: nat) -> Seq<char> {
    digits_of(n, 10)
}

/// `n` written as `0x` followed by lowercase hexadecimal digits.
pub open spec fn format_hex(n: nat) -> Seq<char> {
    seq!['0', 'x'] + digits_of(n, 16)
}

} // verus!
