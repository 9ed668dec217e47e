//! Radix parsing of the primitive integer types, as provided by `num_traits`.
use vstd::prelude::*;

use crate::literal::{bounded_literal, digit_runs_fit, literal_value};

verus! {

/// Why a literal was not accepted.
#[derive(Clone, Copy, Debug, PartialEq, Eq, Structural)]
pub enum ParseError {
    /// The digit string is empty.
    Empty,
    /// A character is not a digit of the radix, or a sign is misplaced.
    InvalidDigit,
    /// The value is above the largest value of the target type.
    PosOverflow,
    /// The value is below the smallest value of the target type.
    NegOverflow,
}

/// What parsing `s` in `radix` gives in a type whose values are `[min, max]`:
/// the literal's value where it is a literal in range, else an error that is
/// `Empty` exactly for the empty string, tells an overflow of a well-formed
/// literal by its direction, and is `InvalidDigit` for a malformed string whose
/// runs of digits all fit.
pub open spec fn radix_outcome(
    s: Seq<char>,
    radix: int,
    signed: bool,
    min: int,
    max: int,
    r: Result<int, ParseError>,
) -> bool {
    match r {
        Ok(n) => bounded_literal(s, radix, signed, min, max) == Some(n),
        Err(e) => {
            &&& bounded_literal(s, radix, signed, min, max) is None
            &&& (e == ParseError::Empty <==> s.len() == 0)
            &&& forall|n: int|
                literal_value(s, radix, signed) == Some(n) ==> (n > max ==> e
                    == ParseError::PosOverflow) && (n < min ==> e == ParseError::NegOverflow)
            &&& s.len() > 0 && literal_value(s, radix, signed) is None && digit_runs_fit(
                s,
                radix,
                signed,
                min,
                max,
            ) ==> e == ParseError::InvalidDigit
        },
    }
}

/// An integer type whose values lie in `[lowest(), highest()]` and that parses
/// literals of radix 10 and 16.
pub trait RadixParse: Sized {
    /// The mathematical value of `self`.
    spec fn value(&self) -> int;

    /// The smallest value of the type.
    spec fn lowest() -> int;

    /// The largest value of the type.
    spec fn highest() -> int;

    /// Whether a literal of the type may carry a `-` sign.
    spec fn is_signed() -> bool;

    /// The range holds zero, and starts at zero for an unsigned type.
    proof fn lemma_range()
        ensures
            Self::lowest() <= 0 <= Self::highest(),
            !Self::is_signed() ==> Self::lowest() == 0,
    ;

    /// Every value lies in the range.
    proof fn lemma_value_in_range(&self)
        ensures
            Self::lowest() <= self.value() <= Self::highest(),
    ;

    /// Parses an optional sign followed by digits of `radix`, rejecting a
    /// value outside the type's range.
    fn from_str_radix(s: &str, radix: u32) -> (r: Result<Self, ParseError>)
        requires
            radix == 10 || radix == 16,
        ensures
            radix_outcome(
                s@,
                radix as int,
                Self::is_signed(),
                Self::lowest(),
                Self::highest(),
                match r {
                    Ok(v) => Ok(v.value()),
                    Err(e) => Err(e),
                },
            ),
    ;
}

impl RadixParse for u8 {
    open spec fn value(&self) -> int {
        *self as int
    }

    open spec fn lowest() -> int {
        0
    }

    open spec fn highest() -> int {
        u8::MAX as int
    }

    open spec fn is_signed() -> bool {
        false
    }

    proof fn lemma_range() {
    }

    proof fn lemma_value_in_range(&self) {
    }

    fn from_str_radix(s: &str, radix: u32) -> (r: Result<u8, ParseError>) {
        u8_from_str_radix(s, radix)
    }
}

/// Relies on `num_traits::Num::from_str_radix` for `u8`, which is
/// `u8::from_str_radix`: an optional `+` and then at least one digit of the
/// radix, with a value in range; `Empty` only for the empty string, the
/// overflow kinds only where the digits read so far leave the range, and
/// `InvalidDigit` otherwise.
#[verifier::external_body]
fn u8_from_str_radix(s: &str, radix: u32) -> (r: Result<u8, ParseError>)
    requires
        radix == 10 || radix == 16,
    ensures
        radix_outcome(
            s@,
            radix as int,
            u8::is_signed(),
            u8::lowest(),
            u8::highest(),
            match r {
                Ok(v) => Ok(v as int),
                Err(e) => Err(e),
            },
        ),
{
    match <u8 as num_traits::Num>::from_str_radix(s, radix) {
        Ok(v) => Ok(v),
        Err(e) => Err(match e.kind() {
            core::num::IntErrorKind::Empty => ParseError::Empty,
            core::num::IntErrorKind::PosOverflow => ParseError::PosOverflow,
            core::num::IntErrorKind::NegOverflow => ParseError::NegOverflow,
            _ => ParseError::InvalidDigit,
        }),
    }
}

impl RadixParse for u16 {
    open spec fn value(&self) -> int {
        *self as int
    }

    open spec fn lowest() -> int {
        0
    }

    open spec fn highest() -> int {
        u16::MAX as int
    }

    open spec fn is_signed() -> bool {
        false
    }

    proof fn lemma_range() {
    }

    proof fn lemma_value_in_range(&self) {
    }

    fn from_str_radix(s: &str, radix: u32) -> (r: Result<u16, ParseError>) {
        u16_from_str_radix(s, radix)
    }
}

/// Relies on `num_traits::Num::from_str_radix` for `u16`, which is
/// `u16::from_str_radix`: an optional `+` and then at least one digit of the
/// radix, with a value in range; `Empty` only for the empty string, the
/// overflow kinds only where the digits read so far leave the range, and
/// `InvalidDigit` otherwise.
#[verifier::external_body]
fn u16_from_str_radix(s: &str, radix: u32) -> (r: Result<u16, ParseError>)
    requires
        radix == 10 || radix == 16,
    ensures
        radix_outcome(
            s@,
            radix as int,
            u16::is_signed(),
            u16::lowest(),
            u16::highest(),
            match r {
                Ok(v) => Ok(v as int),
                Err(e) => Err(e),
            },
        ),
{
    match <u16 as num_traits::Num>::from_str_radix(s, radix) {
        Ok(v) => Ok(v),
        Err(e) => Err(match e.kind() {
            core::num::IntErrorKind::Empty => ParseError::Empty,
            core::num::IntErrorKind::PosOverflow => ParseError::PosOverflow,
            core::num::IntErrorKind::NegOverflow => ParseError::NegOverflow,
            _ => ParseError::InvalidDigit,
        }),
    }
}

impl RadixParse for u32 {
    open spec fn value(&self) -> int {
        *self as int
    }

    open spec fn lowest() -> int {
        0
    }

    open spec fn highest() -> int {
        u32::MAX as int
    }

    open spec fn is_signed() -> bool {
        false
    }

    proof fn lemma_range() {
    }

    proof fn lemma_value_in_range(&self) {
    }

    fn from_str_radix(s: &str, radix: u32) -> (r: Result<u32, ParseError>) {
        u32_from_str_radix(s, radix)
    }
}

/// Relies on `num_traits::Num::from_str_radix` for `u32`, which is
/// `u32::from_str_radix`: an optional `+` and then at least one digit of the
/// radix, with a value in range; `Empty` only for the empty string, the
/// overflow kinds only where the digits read so far leave the range, and
/// `InvalidDigit` otherwise.
#[verifier::external_body]
fn u32_from_str_radix(s: &str, radix: u32) -> (r: Result<u32, ParseError>)
    requires
        radix == 10 || radix == 16,
    ensures
        radix_outcome(
            s@,
            radix as int,
            u32::is_signed(),
            u32::lowest(),
            u32::highest(),
            match r {
                Ok(v) => Ok(v as int),
                Err(e) => Err(e),
            },
        ),
{
    match <u32 as num_traits::Num>::from_str_radix(s, radix) {
        Ok(v) => Ok(v),
        Err(e) => Err(match e.kind() {
            core::num::IntErrorKind::Empty => ParseError::Empty,
            core::num::IntErrorKind::PosOverflow => ParseError::PosOverflow,
            core::num::IntErrorKind::NegOverflow => ParseError::NegOverflow,
            _ => ParseError::InvalidDigit,
        }),
    }
}

impl RadixParse for u64 {
    open spec fn value(&self) -> int {
        *self as int
    }

    open spec fn lowest() -> int {
        0
    }

    open spec fn highest() -> int {
        u64::MAX as int
    }

    open spec fn is_signed() -> bool {
        false
    }

    proof fn lemma_range() {
    }

    proof fn lemma_value_in_range(&self) {
    }

    fn from_str_radix(s: &str, radix: u32) -> (r: Result<u64, ParseError>) {
        u64_from_str_radix(s, radix)
    }
}

/// Relies on `num_traits::Num::from_str_radix` for `u64`, which is
/// `u64::from_str_radix`: an optional `+` and then at least one digit of the
/// radix, with a value in range; `Empty` only for the empty string, the
/// overflow kinds only where the digits read so far leave the range, and
/// `InvalidDigit` otherwise.
#[verifier::external_body]
fn u64_from_str_radix(s: &str, radix: u32) -> (r: Result<u64, ParseError>)
    requires
        radix == 10 || radix == 16,
    ensures
        radix_outcome(
            s@,
            radix as int,
            u64::is_signed(),
            u64::lowest(),
            u64::highest(),
            match r {
                Ok(v) => Ok(v as int),
                Err(e) => Err(e),
            },
        ),
{
    match <u64 as num_traits::Num>::from_str_radix(s, radix) {
        Ok(v) => Ok(v),
        Err(e) => Err(match e.kind() {
            core::num::IntErrorKind::Empty => ParseError::Empty,
            core::num::IntErrorKind::PosOverflow => ParseError::PosOverflow,
            core::num::IntErrorKind::NegOverflow => ParseError::NegOverflow,
            _ => ParseError::InvalidDigit,
        }),
    }
}

impl RadixParse for u128 {
    open spec fn value(&self) -> int {
        *self as int
    }

    open spec fn lowest() -> int {
        0
    }

    open spec fn highest() -> int {
        u128::MAX as int
    }

    open spec fn is_signed() -> bool {
        false
    }

    proof fn lemma_range() {
    }

    proof fn lemma_value_in_range(&self) {
    }

    fn from_str_radix(s: &str, radix: u32) -> (r: Result<u128, ParseError>) {
        u128_from_str_radix(s, radix)
    }
}

/// Relies on `num_traits::Num::from_str_radix` for `u128`, which is
/// `u128::from_str_radix`: an optional `+` and then at least one digit of the
/// radix, with a value in range; `Empty` only for the empty string, the
/// overflow kinds only where the digits read so far leave the range, and
/// `InvalidDigit` otherwise.
#[verifier::external_body]
fn u128_from_str_radix(s: &str, radix: u32) -> (r: Result<u128, ParseError>)
    requires
        radix == 10 || radix == 16,
    ensures
        radix_outcome(
            s@,
            radix as int,
            u128::is_signed(),
            u128::lowest(),
            u128::highest(),
            match r {
                Ok(v) => Ok(v as int),
                Err(e) => Err(e),
            },
        ),
{
    match <u128 as num_traits::Num>::from_str_radix(s, radix) {
        Ok(v) => Ok(v),
        Err(e) => Err(match e.kind() {
            core::num::IntErrorKind::Empty => ParseError::Empty,
            core::num::IntErrorKind::PosOverflow => ParseError::PosOverflow,
            core::num::IntErrorKind::NegOverflow => ParseError::NegOverflow,
            _ => ParseError::InvalidDigit,
        }),
    }
}

impl RadixParse for i8 {
    open spec fn value(&self) -> int {
        *self as int
    }

    open spec fn lowest() -> int {
        i8::MIN as int
    }

    open spec fn highest() -> int {
        i8::MAX as int
    }

    open spec fn is_signed() -> bool {
        true
    }

    proof fn lemma_range() {
    }

    proof fn lemma_value_in_range(&self) {
    }

    fn from_str_radix(s: &str, radix: u32) -> (r: Result<i8, ParseError>) {
        i8_from_str_radix(s, radix)
    }
}

/// Relies on `num_traits::Num::from_str_radix` for `i8`, which is
/// `i8::from_str_radix`: an optional `+` or `-` and then at least one digit of the
/// radix, with a value in range; `Empty` only for the empty string, the
/// overflow kinds only where the digits read so far leave the range, and
/// `InvalidDigit` otherwise.
#[verifier::external_body]
fn i8_from_str_radix(s: &str, radix: u32) -> (r: Result<i8, ParseError>)
    requires
        radix == 10 || radix == 16,
    ensures
        radix_outcome(
            s@,
            radix as int,
            i8::is_signed(),
            i8::lowest(),
            i8::highest(),
            match r {
                Ok(v) => Ok(v as int),
                Err(e) => Err(e),
            },
        ),
{
    match <i8 as num_traits::Num>::from_str_radix(s, radix) {
        Ok(v) => Ok(v),
        Err(e) => Err(match e.kind() {
            core::num::IntErrorKind::Empty => ParseError::Empty,
            core::num::IntErrorKind::PosOverflow => ParseError::PosOverflow,
            core::num::IntErrorKind::NegOverflow => ParseError::NegOverflow,
            _ => ParseError::InvalidDigit,
        }),
    }
}

impl RadixParse for i16 {
    open spec fn value(&self) -> int {
        *self as int
    }

    open spec fn lowest() -> int {
        i16::MIN as int
    }

    open spec fn highest() -> int {
        i16::MAX as int
    }

    open spec fn is_signed() -> bool {
        true
    }

    proof fn lemma_range() {
    }

    proof fn lemma_value_in_range(&self) {
    }

    fn from_str_radix(s: &str, radix: u32) -> (r: Result<i16, ParseError>) {
        i16_from_str_radix(s, radix)
    }
}

/// Relies on `num_traits::Num::from_str_radix` for `i16`, which is
/// `i16::from_str_radix`: an optional `+` or `-` and then at least one digit of the
/// radix, with a value in range; `Empty` only for the empty string, the
/// overflow kinds only where the digits read so far leave the range, and
/// `InvalidDigit` otherwise.
#[verifier::external_body]
fn i16_from_str_radix(s: &str, radix: u32) -> (r: Result<i16, ParseError>)
    requires
        radix == 10 || radix == 16,
    ensures
        radix_outcome(
            s@,
            radix as int,
            i16::is_signed(),
            i16::lowest(),
            i16::highest(),
            match r {
                Ok(v) => Ok(v as int),
                Err(e) => Err(e),
            },
        ),
{
    match <i16 as num_traits::Num>::from_str_radix(s, radix) {
        Ok(v) => Ok(v),
        Err(e) => Err(match e.kind() {
            core::num::IntErrorKind::Empty => ParseError::Empty,
            core::num::IntErrorKind::PosOverflow => ParseError::PosOverflow,
            core::num::IntErrorKind::NegOverflow => ParseError::NegOverflow,
            _ => ParseError::InvalidDigit,
        }),
    }
}

impl RadixParse for i32 {
    open spec fn value(&self) -> int {
        *self as int
    }

    open spec fn lowest() -> int {
        i32::MIN as int
    }

    open spec fn highest() -> int {
        i32::MAX as int
    }

    open spec fn is_signed() -> bool {
        true
    }

    proof fn lemma_range() {
    }

    proof fn lemma_value_in_range(&self) {
    }

    fn from_str_radix(s: &str, radix: u32) -> (r: Result<i32, ParseError>) {
        i32_from_str_radix(s, radix)
    }
}

/// Relies on `num_traits::Num::from_str_radix` for `i32`, which is
/// `i32::from_str_radix`: an optional `+` or `-` and then at least one digit of the
/// radix, with a value in range; `Empty` only for the empty string, the
/// overflow kinds only where the digits read so far leave the range, and
/// `InvalidDigit` otherwise.
#[verifier::external_body]
fn i32_from_str_radix(s: &str, radix: u32) -> (r: Result<i32, ParseError>)
    requires
        radix == 10 || radix == 16,
    ensures
        radix_outcome(
            s@,
            radix as int,
            i32::is_signed(),
            i32::lowest(),
            i32::highest(),
            match r {
                Ok(v) => Ok(v as int),
                Err(e) => Err(e),
            },
        ),
{
    match <i32 as num_traits::Num>::from_str_radix(s, radix) {
        Ok(v) => Ok(v),
        Err(e) => Err(match e.kind() {
            core::num::IntErrorKind::Empty => ParseError::Empty,
            core::num::IntErrorKind::PosOverflow => ParseError::PosOverflow,
            core::num::IntErrorKind::NegOverflow => ParseError::NegOverflow,
            _ => ParseError::InvalidDigit,
        }),
    }
}

impl RadixParse for i64 {
    open spec fn value(&self) -> int {
        *self as int
    }

    open spec fn lowest() -> int {
        i64::MIN as int
    }

    open spec fn highest() -> int {
        i64::MAX as int
    }

    open spec fn is_signed() -> bool {
        true
    }

    proof fn lemma_range() {
    }

    proof fn lemma_value_in_range(&self) {
    }

    fn from_str_radix(s: &str, radix: u32) -> (r: Result<i64, ParseError>) {
        i64_from_str_radix(s, radix)
    }
}

/// Relies on `num_traits::Num::from_str_radix` for `i64`, which is
/// `i64::from_str_radix`: an optional `+` or `-` and then at least one digit of the
/// radix, with a value in range; `Empty` only for the empty string, the
/// overflow kinds only where the digits read so far leave the range, and
/// `InvalidDigit` otherwise.
#[verifier::external_body]
fn i64_from_str_radix(s: &str, radix: u32) -> (r: Result<i64, ParseError>)
    requires
        radix == 10 || radix == 16,
    ensures
        radix_outcome(
            s@,
            radix as int,
            i64::is_signed(),
            i64::lowest(),
            i64::highest(),
            match r {
                Ok(v) => Ok(v as int),
                Err(e) => Err(e),
            },
        ),
{
    match <i64 as num_traits::Num>::from_str_radix(s, radix) {
        Ok(v) => Ok(v),
        Err(e) => Err(match e.kind() {
            core::num::IntErrorKind::Empty => ParseError::Empty,
            core::num::IntErrorKind::PosOverflow => ParseError::PosOverflow,
            core::num::IntErrorKind::NegOverflow => ParseError::NegOverflow,
            _ => ParseError::InvalidDigit,
        }),
    }
}

impl RadixParse for i128 {
    open spec fn value(&self) -> int {
        *self as int
    }

    open spec fn lowest() -> int {
        i128::MIN as int
    }

    open spec fn highest() -> int {
        i128::MAX as int
    }

    open spec fn is_signed() -> bool {
        true
    }

    proof fn lemma_range() {
    }

    proof fn lemma_value_in_range(&self) {
    }

    fn from_str_radix(s: &str, radix: u32) -> (r: Result<i128, ParseError>) {
        i128_from_str_radix(s, radix)
    }
}

/// Relies on `num_traits::Num::from_str_radix` for `i128`, which is
/// `i128::from_str_radix`: an optional `+` or `-` and then at least one digit of the
/// radix, with a value in range; `Empty` only for the empty string, the
/// overflow kinds only where the digits read so far leave the range, and
/// `InvalidDigit` otherwise.
#[verifier::external_body]
fn i128_from_str_radix(s: &str, radix: u32) -> (r: Result<i128, ParseError>)
    requires
        radix == 10 || radix == 16,
    ensures
        radix_outcome(
            s@,
            radix as int,
            i128::is_signed(),
            i128::lowest(),
            i128::highest(),
            match r {
                Ok(v) => Ok(v as int),
                Err(e) => Err(e),
            },
        ),
{
    match <i128 as num_traits::Num>::from_str_radix(s, radix) {
        Ok(v) => Ok(v),
        Err(e) => Err(match e.kind() {
            core::num::IntErrorKind::Empty => ParseError::Empty,
            core::num::IntErrorKind::PosOverflow => ParseError::PosOverflow,
            core::num::IntErrorKind::NegOverflow => ParseError::NegOverflow,
            _ => ParseError::InvalidDigit,
        }),
    }
}

impl RadixParse for usize {
    open spec fn value(&self) -> int {
        *self as int
    }

    open spec fn lowest() -> int {
        0
    }

    open spec fn highest() -> int {
        usize::MAX as int
    }

    open spec fn is_signed() -> bool {
        false
    }

    proof fn lemma_range() {
    }

    proof fn lemma_value_in_range(&self) {
    }

    fn from_str_radix(s: &str, radix: u32) -> (r: Result<usize, ParseError>) {
        usize_from_str_radix(s, radix)
    }
}

/// Relies on `num_traits::Num::from_str_radix` for `usize`, which is
/// `usize::from_str_radix`: an optional `+` and then at least one digit of the
/// radix, with a value in range; `Empty` only for the empty string, the
/// overflow kinds only where the digits read so far leave the range, and
/// `InvalidDigit` otherwise.
#[verifier::external_body]
fn usize_from_str_radix(s: &str, radix: u32) -> (r: Result<usize, ParseError>)
    requires
        radix == 10 || radix == 16,
    ensures
        radix_outcome(
            s@,
            radix as int,
            usize::is_signed(),
            usize::lowest(),
            usize::highest(),
            match r {
                Ok(v) => Ok(v as int),
                Err(e) => Err(e),
            },
        ),
{
    match <usize as num_traits::Num>::from_str_radix(s, radix) {
        Ok(v) => Ok(v),
        Err(e) => Err(match e.kind() {
            core::num::IntErrorKind::Empty => ParseError::Empty,
            core::num::IntErrorKind::PosOverflow => ParseError::PosOverflow,
            core::num::IntErrorKind::NegOverflow => ParseError::NegOverflow,
            _ => ParseError::InvalidDigit,
        }),
    }
}

impl RadixParse for isize {
    open spec fn value(&self) -> int {
        *self as int
    }

    open spec fn lowest() -> int {
        isize::MIN as int
    }

    open spec fn highest() -> int {
        isize::MAX as int
    }

    open spec fn is_signed() -> bool {
        true
    }

    proof fn lemma_range() {
    }

    proof fn lemma_value_in_range(&self) {
    }

    fn from_str_radix(s: &str, radix: u32) -> (r: Result<isize, ParseError>) {
        isize_from_str_radix(s, radix)
    }
}

/// Relies on `num_traits::Num::from_str_radix` for `isize`, which is
/// `isize::from_str_radix`: an optional `+` or `-` and then at least one digit of the
/// radix, with a value in range; `Empty` only for the empty string, the
/// overflow kinds only where the digits read so far leave the range, and
/// `InvalidDigit` otherwise.
#[verifier::external_body]
fn isize_from_str_radix(s: &str, radix: u32) -> (r: Result<isize, ParseError>)
    requires
        radix == 10 || radix == 16,
    ensures
        radix_outcome(
            s@,
            radix as int,
            isize::is_signed(),
            isize::lowest(),
            isize::highest(),
            match r {
                Ok(v) => Ok(v as int),
                Err(e) => Err(e),
            },
        ),
{
    match <isize as num_traits::Num>::from_str_radix(s, radix) {
        Ok(v) => Ok(v),
        Err(e) => Err(match e.kind() {
            core::num::IntErrorKind::Empty => ParseError::Empty,
            core::num::IntErrorKind::PosOverflow => ParseError::PosOverflow,
            core::num::IntErrorKind::NegOverflow => ParseError::NegOverflow,
            _ => ParseError::InvalidDigit,
        }),
    }
}

} // verus!
