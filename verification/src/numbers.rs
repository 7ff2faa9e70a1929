//! Decimal integers: the grammar of their text and the codecs for the
//! fixed-width integer types.
use vstd::prelude::*;
use crate::error::{parse_failure, Failure, VelvetIOError};
use crate::parser::Parse;
use crate::text::{chars_of, is_whitespace, string_of, trim_chars, trimmed, trimmed_keeps};

verus! {

/// Whether `c` is one of the ten decimal digits.
pub open spec fn is_digit(c: char) -> bool {
    '0' <= c <= '9'
}

/// The number that the digit `c` stands for.
pub open spec fn digit_value(c: char) -> nat {
    (c as int - '0' as int) as nat
}

/// The digit that stands for `d`, where `d` is below ten.
pub open spec fn digit_char(d: nat) -> char {
    ((d + 48) as u8) as char
}

/// Whether `s` is made of decimal digits only.
pub open spec fn all_digits(s: Seq<char>) -> bool {
    forall|i: int| 0 <= i < s.len() ==> is_digit(#[trigger] s[i])
}

/// The number that the digits `s` write in base ten.
pub open spec fn digits_value(s: Seq<char>) -> nat
    decreases s.len(),
{
    if s.len() == 0 {
        0
    } else {
        digits_value(s.drop_last()) * 10 + digit_value(s.last())
    }
}

/// The number written by `s` where no minus sign is allowed: an optional `+`,
/// then one or more digits.
pub open spec fn unsigned_value(s: Seq<char>) -> Option<int> {
    let body = if s.len() > 0 && s[0] == '+' {
        s.drop_first()
    } else {
        s
    };
    if body.len() > 0 && all_digits(body) {
        Some(digits_value(body) as int)
    } else {
        None
    }
}

/// The number written by `s`: an optional `+` or `-`, then one or more digits.
pub open spec fn signed_value(s: Seq<char>) -> Option<int> {
    if s.len() > 0 && s[0] == '-' {
        let body = s.drop_first();
        if body.len() > 0 && all_digits(body) {
            Some(-(digits_value(body) as int))
        } else {
            None
        }
    } else {
        unsigned_value(s)
    }
}

/// `v` where it lies between `lo` and `hi`, both included.
pub open spec fn within(v: Option<int>, lo: int, hi: int) -> Option<int> {
    match v {
        Some(x) => if lo <= x <= hi {
            Some(x)
        } else {
            None
        },
        None => None,
    }
}

/// The shortest decimal text of `n`.
pub open spec fn decimal_text(n: nat) -> Seq<char>
    decreases n,
{
    if n < 10 {
        seq![digit_char(n)]
    } else {
        decimal_text(n / 10).push(digit_char(n % 10))
    }
}

/// The canonical text of the integer `v`: a minus sign where it is negative,
/// then the shortest decimal text of its magnitude.
pub open spec fn integer_text(v: int) -> Seq<char> {
    if v < 0 {
        seq!['-'] + decimal_text((-v) as nat)
    } else {
        decimal_text(v as nat)
    }
}

/// Wraps `str::parse::<u128>`: the number that `s` writes without a minus
/// sign, where it fits; nothing for any other text.
#[verifier::external_body]
pub(crate) fn unsigned_of(s: &str) -> (r: Option<u128>)
    ensures
        match within(unsigned_value(s@), 0, u128::MAX as int) {
            Some(x) => r == Some(x as u128),
            None => r is None,
        },
{
    s.parse::<u128>().ok()
}

/// Wraps `str::parse::<i128>`: the number that `s` writes, where it fits;
/// nothing for any other text.
#[verifier::external_body]
pub(crate) fn signed_of(s: &str) -> (r: Option<i128>)
    ensures
        match within(signed_value(s@), i128::MIN as int, i128::MAX as int) {
            Some(x) => r == Some(x as i128),
            None => r is None,
        },
{
    s.parse::<i128>().ok()
}

/// The digit that stands for `d`.
fn digit_of(d: u8) -> (c: char)
    requires
        d < 10,
    ensures
        c == digit_char(d as nat),
{
    (d + 48) as char
}

/// The digits of the shortest decimal text of `n`.
fn digits_of(n: usize) -> (r: Vec<char>)
    ensures
        r@ == decimal_text(n as nat),
    decreases n,
{
    if n < 10 {
        let mut r: Vec<char> = Vec::new();
        r.push(digit_of(n as u8));
        assert(r@ =~= decimal_text(n as nat));
        r
    } else {
        let mut r = digits_of(n / 10);
        r.push(digit_of((n % 10) as u8));
        r
    }
}

/// The shortest decimal text of `n`.
pub fn number_text(n: usize) -> (r: String)
    ensures
        r@ == decimal_text(n as nat),
{
    string_of(&digits_of(n))
}

/// The number that the trimmed text of `input` writes without a minus sign,
/// where it fits 128 bits.
pub fn parse_unsigned(input: &str) -> (r: Option<u128>)
    ensures
        match within(unsigned_value(trimmed(input@)), 0, u128::MAX as int) {
            Some(x) => r == Some(x as u128),
            None => r is None,
        },
{
    let t = string_of(&trim_chars(&chars_of(input)));
    unsigned_of(t.as_str())
}

/// The number that the trimmed text of `input` writes, where it fits 128
/// bits.
pub fn parse_signed(input: &str) -> (r: Option<i128>)
    ensures
        match within(signed_value(trimmed(input@)), i128::MIN as int, i128::MAX as int) {
            Some(x) => r == Some(x as i128),
            None => r is None,
        },
{
    let t = string_of(&trim_chars(&chars_of(input)));
    signed_of(t.as_str())
}

impl Parse for i8 {
    open spec fn obeys_parse_spec() -> bool {
        true
    }

    open spec fn accepts(input: Seq<char>) -> bool {
        within(signed_value(trimmed(input)), i8::MIN as int, i8::MAX as int) is Some
    }

    open spec fn denotes(input: Seq<char>, value: Self) -> bool {
        signed_value(trimmed(input)) == Some(value as int)
    }

    open spec fn failure(input: Seq<char>) -> Failure {
        parse_failure(input, "integer (-128 to 127)"@)
    }

    open spec fn name() -> Seq<char> {
        "integer (-128 to 127)"@
    }

    fn parse(input: &str) -> (r: Result<Self, VelvetIOError>) {
        match parse_signed(input) {
            Some(v) => {
                if i8::MIN as i128 <= v && v <= i8::MAX as i128 {
                    Ok(v as i8)
                } else {
                    Err(VelvetIOError::parse_error(input, "integer (-128 to 127)"))
                }
            },
            None => Err(VelvetIOError::parse_error(input, "integer (-128 to 127)")),
        }
    }

    fn describe() -> (r: &'static str) {
        "integer (-128 to 127)"
    }
}

impl Parse for i16 {
    open spec fn obeys_parse_spec() -> bool {
        true
    }

    open spec fn accepts(input: Seq<char>) -> bool {
        within(signed_value(trimmed(input)), i16::MIN as int, i16::MAX as int) is Some
    }

    open spec fn denotes(input: Seq<char>, value: Self) -> bool {
        signed_value(trimmed(input)) == Some(value as int)
    }

    open spec fn failure(input: Seq<char>) -> Failure {
        parse_failure(input, "integer (-32,768 to 32,767)"@)
    }

    open spec fn name() -> Seq<char> {
        "integer (-32,768 to 32,767)"@
    }

    fn parse(input: &str) -> (r: Result<Self, VelvetIOError>) {
        match parse_signed(input) {
            Some(v) => {
                if i16::MIN as i128 <= v && v <= i16::MAX as i128 {
                    Ok(v as i16)
                } else {
                    Err(VelvetIOError::parse_error(input, "integer (-32,768 to 32,767)"))
                }
            },
            None => Err(VelvetIOError::parse_error(input, "integer (-32,768 to 32,767)")),
        }
    }

    fn describe() -> (r: &'static str) {
        "integer (-32,768 to 32,767)"
    }
}

impl Parse for i32 {
    open spec fn obeys_parse_spec() -> bool {
        true
    }

    open spec fn accepts(input: Seq<char>) -> bool {
        within(signed_value(trimmed(input)), i32::MIN as int, i32::MAX as int) is Some
    }

    open spec fn denotes(input: Seq<char>, value: Self) -> bool {
        signed_value(trimmed(input)) == Some(value as int)
    }

    open spec fn failure(input: Seq<char>) -> Failure {
        parse_failure(input, "integer"@)
    }

    open spec fn name() -> Seq<char> {
        "integer"@
    }

    fn parse(input: &str) -> (r: Result<Self, VelvetIOError>) {
        match parse_signed(input) {
            Some(v) => {
                if i32::MIN as i128 <= v && v <= i32::MAX as i128 {
                    Ok(v as i32)
                } else {
                    Err(VelvetIOError::parse_error(input, "integer"))
                }
            },
            None => Err(VelvetIOError::parse_error(input, "integer")),
        }
    }

    fn describe() -> (r: &'static str) {
        "integer"
    }
}

impl Parse for i64 {
    open spec fn obeys_parse_spec() -> bool {
        true
    }

    open spec fn accepts(input: Seq<char>) -> bool {
        within(signed_value(trimmed(input)), i64::MIN as int, i64::MAX as int) is Some
    }

    open spec fn denotes(input: Seq<char>, value: Self) -> bool {
        signed_value(trimmed(input)) == Some(value as int)
    }

    open spec fn failure(input: Seq<char>) -> Failure {
        parse_failure(input, "integer"@)
    }

    open spec fn name() -> Seq<char> {
        "integer"@
    }

    fn parse(input: &str) -> (r: Result<Self, VelvetIOError>) {
        match parse_signed(input) {
            Some(v) => {
                if i64::MIN as i128 <= v && v <= i64::MAX as i128 {
                    Ok(v as i64)
                } else {
                    Err(VelvetIOError::parse_error(input, "integer"))
                }
            },
            None => Err(VelvetIOError::parse_error(input, "integer")),
        }
    }

    fn describe() -> (r: &'static str) {
        "integer"
    }
}

impl Parse for i128 {
    open spec fn obeys_parse_spec() -> bool {
        true
    }

    open spec fn accepts(input: Seq<char>) -> bool {
        within(signed_value(trimmed(input)), i128::MIN as int, i128::MAX as int) is Some
    }

    open spec fn denotes(input: Seq<char>, value: Self) -> bool {
        signed_value(trimmed(input)) == Some(value as int)
    }

    open spec fn failure(input: Seq<char>) -> Failure {
        parse_failure(input, "integer"@)
    }

    open spec fn name() -> Seq<char> {
        "integer"@
    }

    fn parse(input: &str) -> (r: Result<Self, VelvetIOError>) {
        match parse_signed(input) {
            Some(v) => Ok(v),
            None => Err(VelvetIOError::parse_error(input, "integer")),
        }
    }

    fn describe() -> (r: &'static str) {
        "integer"
    }
}

impl Parse for isize {
    open spec fn obeys_parse_spec() -> bool {
        true
    }

    open spec fn accepts(input: Seq<char>) -> bool {
        within(signed_value(trimmed(input)), isize::MIN as int, isize::MAX as int) is Some
    }

    open spec fn denotes(input: Seq<char>, value: Self) -> bool {
        signed_value(trimmed(input)) == Some(value as int)
    }

    open spec fn failure(input: Seq<char>) -> Failure {
        parse_failure(input, "integer"@)
    }

    open spec fn name() -> Seq<char> {
        "integer"@
    }

    fn parse(input: &str) -> (r: Result<Self, VelvetIOError>) {
        match parse_signed(input) {
            Some(v) => {
                if isize::MIN as i128 <= v && v <= isize::MAX as i128 {
                    Ok(v as isize)
                } else {
                    Err(VelvetIOError::parse_error(input, "integer"))
                }
            },
            None => Err(VelvetIOError::parse_error(input, "integer")),
        }
    }

    fn describe() -> (r: &'static str) {
        "integer"
    }
}

impl Parse for u8 {
    open spec fn obeys_parse_spec() -> bool {
        true
    }

    open spec fn accepts(input: Seq<char>) -> bool {
        within(unsigned_value(trimmed(input)), u8::MIN as int, u8::MAX as int) is Some
    }

    open spec fn denotes(input: Seq<char>, value: Self) -> bool {
        unsigned_value(trimmed(input)) == Some(value as int)
    }

    open spec fn failure(input: Seq<char>) -> Failure {
        parse_failure(input, "positive integer (0 to 255)"@)
    }

    open spec fn name() -> Seq<char> {
        "positive integer (0 to 255)"@
    }

    fn parse(input: &str) -> (r: Result<Self, VelvetIOError>) {
        match parse_unsigned(input) {
            Some(v) => {
                if v <= u8::MAX as u128 {
                    Ok(v as u8)
                } else {
                    Err(VelvetIOError::parse_error(input, "positive integer (0 to 255)"))
                }
            },
            None => Err(VelvetIOError::parse_error(input, "positive integer (0 to 255)")),
        }
    }

    fn describe() -> (r: &'static str) {
        "positive integer (0 to 255)"
    }
}

impl Parse for u16 {
    open spec fn obeys_parse_spec() -> bool {
        true
    }

    open spec fn accepts(input: Seq<char>) -> bool {
        within(unsigned_value(trimmed(input)), u16::MIN as int, u16::MAX as int) is Some
    }

    open spec fn denotes(input: Seq<char>, value: Self) -> bool {
        unsigned_value(trimmed(input)) == Some(value as int)
    }

    open spec fn failure(input: Seq<char>) -> Failure {
        parse_failure(input, "positive integer (0 to 65,535)"@)
    }

    open spec fn name() -> Seq<char> {
        "positive integer (0 to 65,535)"@
    }

    fn parse(input: &str) -> (r: Result<Self, VelvetIOError>) {
        match parse_unsigned(input) {
            Some(v) => {
                if v <= u16::MAX as u128 {
                    Ok(v as u16)
                } else {
                    Err(VelvetIOError::parse_error(input, "positive integer (0 to 65,535)"))
                }
            },
            None => Err(VelvetIOError::parse_error(input, "positive integer (0 to 65,535)")),
        }
    }

    fn describe() -> (r: &'static str) {
        "positive integer (0 to 65,535)"
    }
}

impl Parse for u32 {
    open spec fn obeys_parse_spec() -> bool {
        true
    }

    open spec fn accepts(input: Seq<char>) -> bool {
        within(unsigned_value(trimmed(input)), u32::MIN as int, u32::MAX as int) is Some
    }

    open spec fn denotes(input: Seq<char>, value: Self) -> bool {
        unsigned_value(trimmed(input)) == Some(value as int)
    }

    open spec fn failure(input: Seq<char>) -> Failure {
        parse_failure(input, "positive integer"@)
    }

    open spec fn name() -> Seq<char> {
        "positive integer"@
    }

    fn parse(input: &str) -> (r: Result<Self, VelvetIOError>) {
        match parse_unsigned(input) {
            Some(v) => {
                if v <= u32::MAX as u128 {
                    Ok(v as u32)
                } else {
                    Err(VelvetIOError::parse_error(input, "positive integer"))
                }
            },
            None => Err(VelvetIOError::parse_error(input, "positive integer")),
        }
    }

    fn describe() -> (r: &'static str) {
        "positive integer"
    }
}

impl Parse for u64 {
    open spec fn obeys_parse_spec() -> bool {
        true
    }

    open spec fn accepts(input: Seq<char>) -> bool {
        within(unsigned_value(trimmed(input)), u64::MIN as int, u64::MAX as int) is Some
    }

    open spec fn denotes(input: Seq<char>, value: Self) -> bool {
        unsigned_value(trimmed(input)) == Some(value as int)
    }

    open spec fn failure(input: Seq<char>) -> Failure {
        parse_failure(input, "positive integer"@)
    }

    open spec fn name() -> Seq<char> {
        "positive integer"@
    }

    fn parse(input: &str) -> (r: Result<Self, VelvetIOError>) {
        match parse_unsigned(input) {
            Some(v) => {
                if v <= u64::MAX as u128 {
                    Ok(v as u64)
                } else {
                    Err(VelvetIOError::parse_error(input, "positive integer"))
                }
            },
            None => Err(VelvetIOError::parse_error(input, "positive integer")),
        }
    }

    fn describe() -> (r: &'static str) {
        "positive integer"
    }
}

impl Parse for u128 {
    open spec fn obeys_parse_spec() -> bool {
        true
    }

    open spec fn accepts(input: Seq<char>) -> bool {
        within(unsigned_value(trimmed(input)), u128::MIN as int, u128::MAX as int) is Some
    }

    open spec fn denotes(input: Seq<char>, value: Self) -> bool {
        unsigned_value(trimmed(input)) == Some(value as int)
    }

    open spec fn failure(input: Seq<char>) -> Failure {
        parse_failure(input, "positive integer"@)
    }

    open spec fn name() -> Seq<char> {
        "positive integer"@
    }

    fn parse(input: &str) -> (r: Result<Self, VelvetIOError>) {
        match parse_unsigned(input) {
            Some(v) => Ok(v),
            None => Err(VelvetIOError::parse_error(input, "positive integer")),
        }
    }

    fn describe() -> (r: &'static str) {
        "positive integer"
    }
}

impl Parse for usize {
    open spec fn obeys_parse_spec() -> bool {
        true
    }

    open spec fn accepts(input: Seq<char>) -> bool {
        within(unsigned_value(trimmed(input)), usize::MIN as int, usize::MAX as int) is Some
    }

    open spec fn denotes(input: Seq<char>, value: Self) -> bool {
        unsigned_value(trimmed(input)) == Some(value as int)
    }

    open spec fn failure(input: Seq<char>) -> Failure {
        parse_failure(input, "positive integer"@)
    }

    open spec fn name() -> Seq<char> {
        "positive integer"@
    }

    fn parse(input: &str) -> (r: Result<Self, VelvetIOError>) {
        match parse_unsigned(input) {
            Some(v) => {
                if v <= usize::MAX as u128 {
                    Ok(v as usize)
                } else {
                    Err(VelvetIOError::parse_error(input, "positive integer"))
                }
            },
            None => Err(VelvetIOError::parse_error(input, "positive integer")),
        }
    }

    fn describe() -> (r: &'static str) {
        "positive integer"
    }
}


/// The shortest decimal text of `n` is made of digits, at least one, and
/// writes `n`.
pub proof fn decimal_text_writes(n: nat)
    ensures
        decimal_text(n).len() > 0,
        all_digits(decimal_text(n)),
        digits_value(decimal_text(n)) == n,
    decreases n,
{
    let s = decimal_text(n);
    if n < 10 {
        assert(s.drop_last() =~= Seq::<char>::empty());
        assert(digits_value(s.drop_last()) == 0);
        assert(is_digit(digit_char(n)) && digit_value(digit_char(n)) == n);
    } else {
        decimal_text_writes(n / 10);
        assert(s.drop_last() =~= decimal_text(n / 10));
        let d = n % 10;
        assert(is_digit(digit_char(d)) && digit_value(digit_char(d)) == d);
        assert(s.last() == digit_char(d));
        assert forall|i: int| 0 <= i < s.len() implies is_digit(#[trigger] s[i]) by {
            if i < s.len() - 1 {
                assert(s[i] == decimal_text(n / 10)[i]);
            }
        }
    }
}

/// Round trip of the integers: the canonical text of `v` writes `v`, with a
/// sign allowed and, where `v` is not negative, without one.
pub proof fn integer_text_round_trip(v: int)
    ensures
        signed_value(integer_text(v)) == Some(v),
        v >= 0 ==> unsigned_value(integer_text(v)) == Some(v),
{
    let s = integer_text(v);
    if v < 0 {
        let n = (-v) as nat;
        decimal_text_writes(n);
        assert(s[0] == '-');
        assert(s.drop_first() =~= decimal_text(n));
    } else {
        decimal_text_writes(v as nat);
        assert(is_digit(s[0]));
    }
}

/// Round trip of the integers through a codec: where `v` lies in the range
/// from `lo` to `hi` of an integer type and its canonical text has no white
/// space at its ends, the trimmed text writes `v` within that range, with a
/// sign allowed and, where `v` is not negative, without one.
pub proof fn canonical_integer_is_accepted(v: int, lo: int, hi: int)
    requires
        lo <= v <= hi,
        !is_whitespace(integer_text(v)[0]),
        !is_whitespace(integer_text(v).last()),
    ensures
        within(signed_value(trimmed(integer_text(v))), lo, hi) == Some(v),
        v >= 0 ==> within(unsigned_value(trimmed(integer_text(v))), lo, hi) == Some(v),
{
    integer_text_round_trip(v);
    trimmed_keeps(integer_text(v));
}

} // verus!
