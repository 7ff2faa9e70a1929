//! Validators: predicates over a parsed value, and the two ways to combine
//! them.
use vstd::prelude::*;
use vstd::std_specs::cmp::PartialOrdIs;
use vstd::std_specs::cmp::PartialOrdSpec;
use crate::text::{byte_length, chars_of, trim_chars, trimmed};

verus! {

/// Whether `v` may be called on every value.
pub open spec fn total<T, F: Fn(&T) -> bool>(v: F) -> bool {
    forall|x: &T| call_requires(v, (x,))
}

/// Whether `v` answers on every value as the predicate `p` does.
pub open spec fn decides<T, F: Fn(&T) -> bool>(v: F, p: spec_fn(T) -> bool) -> bool {
    forall|x: &T, b: bool| call_ensures(v, (x,), b) ==> b == p(*x)
}

/// Whether `v` lets through what both `v1` and `v2` let through, and nothing
/// else.
pub open spec fn is_both<T, F1: Fn(&T) -> bool, F2: Fn(&T) -> bool, F: Fn(&T) -> bool>(
    v: F,
    v1: F1,
    v2: F2,
) -> bool {
    forall|x: &T, b: bool| #[trigger]
        call_ensures(v, (x,), b) ==> if b {
            call_ensures(v1, (x,), true) && call_ensures(v2, (x,), true)
        } else {
            call_ensures(v1, (x,), false) || call_ensures(v2, (x,), false)
        }
}

/// Whether `v` lets through what `v1` or `v2` lets through, and nothing else.
pub open spec fn is_either<T, F1: Fn(&T) -> bool, F2: Fn(&T) -> bool, F: Fn(&T) -> bool>(
    v: F,
    v1: F1,
    v2: F2,
) -> bool {
    forall|x: &T, b: bool| #[trigger]
        call_ensures(v, (x,), b) ==> if b {
            call_ensures(v1, (x,), true) || call_ensures(v2, (x,), true)
        } else {
            call_ensures(v1, (x,), false) && call_ensures(v2, (x,), false)
        }
}

/// The text is not empty once trimmed.
pub fn not_empty(s: &String) -> (b: bool)
    ensures
        b == (trimmed(s@).len() > 0),
{
    trim_chars(&chars_of(s.as_str())).len() > 0
}

/// A validator for text of at least `min` bytes.
pub fn min_length(min: usize) -> (v: impl Fn(&String) -> bool)
    ensures
        total(v),
        decides(v, |s: String| byte_length(s@) >= min),
{
    move |s: &String| -> (b: bool)
        ensures
            b == (byte_length(s@) >= min),
        { s.as_str().len() >= min }
}

/// A validator for text of at most `max` bytes.
pub fn max_length(max: usize) -> (v: impl Fn(&String) -> bool)
    ensures
        total(v),
        decides(v, |s: String| byte_length(s@) <= max),
{
    move |s: &String| -> (b: bool)
        ensures
            b == (byte_length(s@) <= max),
        { s.as_str().len() <= max }
}

/// The value is greater than its type's default, which is zero for the
/// numbers.
pub fn is_positive<T: PartialOrd + Default>(n: &T) -> (b: bool)
    ensures
        exists|zero: T| #[trigger]
            call_ensures(T::default, (), zero) && (T::obeys_partial_cmp_spec() ==> b == n.is_gt(
                &zero,
            )),
{
    let zero = T::default();
    *n > zero
}

/// A validator for values from `min` to `max`, both included.
pub fn in_range<T: PartialOrd + Copy>(min: T, max: T) -> (v: impl Fn(&T) -> bool)
    ensures
        total(v),
        T::obeys_partial_cmp_spec() ==> decides(v, |n: T| n.is_ge(&min) && n.is_le(&max)),
{
    move |n: &T| -> (b: bool)
        ensures
            T::obeys_partial_cmp_spec() ==> b == (n.is_ge(&min) && n.is_le(&max)),
        { *n >= min && *n <= max }
}

/// A validator that lets through what both `validator1` and `validator2` let
/// through. `validator2` is asked only where `validator1` agreed.
pub fn and<T, F1, F2>(validator1: F1, validator2: F2) -> (v: impl Fn(&T) -> bool) where
    F1: Fn(&T) -> bool,
    F2: Fn(&T) -> bool,

    requires
        total(validator1),
        total(validator2),
    ensures
        total(v),
        is_both(v, validator1, validator2),
{
    move |value: &T| -> (b: bool)
        ensures
            if b {
                call_ensures(validator1, (value,), true) && call_ensures(validator2, (value,), true)
            } else {
                call_ensures(validator1, (value,), false) || call_ensures(
                    validator2,
                    (value,),
                    false,
                )
            },
        { validator1(value) && validator2(value) }
}

/// A validator that lets through what `validator1` or `validator2` lets
/// through. `validator2` is asked only where `validator1` refused.
pub fn or<T, F1, F2>(validator1: F1, validator2: F2) -> (v: impl Fn(&T) -> bool) where
    F1: Fn(&T) -> bool,
    F2: Fn(&T) -> bool,

    requires
        total(validator1),
        total(validator2),
    ensures
        total(v),
        is_either(v, validator1, validator2),
{
    move |value: &T| -> (b: bool)
        ensures
            if b {
                call_ensures(validator1, (value,), true) || call_ensures(validator2, (value,), true)
            } else {
                call_ensures(validator1, (value,), false) && call_ensures(
                    validator2,
                    (value,),
                    false,
                )
            },
        { validator1(value) || validator2(value) }
}

/// Conjunction: where `v1` answers as `p1` and `v2` as `p2`, a validator that
/// is both of them answers, on every value, as `p1 && p2`.
pub proof fn and_is_conjunction<T, F1: Fn(&T) -> bool, F2: Fn(&T) -> bool, F: Fn(&T) -> bool>(
    v: F,
    v1: F1,
    v2: F2,
    p1: spec_fn(T) -> bool,
    p2: spec_fn(T) -> bool,
)
    requires
        decides(v1, p1),
        decides(v2, p2),
        is_both(v, v1, v2),
    ensures
        decides(v, |x: T| p1(x) && p2(x)),
{
}

/// Disjunction: where `v1` answers as `p1` and `v2` as `p2`, a validator that
/// is either of them answers, on every value, as `p1 || p2`.
pub proof fn or_is_disjunction<T, F1: Fn(&T) -> bool, F2: Fn(&T) -> bool, F: Fn(&T) -> bool>(
    v: F,
    v1: F1,
    v2: F2,
    p1: spec_fn(T) -> bool,
    p2: spec_fn(T) -> bool,
)
    requires
        decides(v1, p1),
        decides(v2, p2),
        is_either(v, v1, v2),
    ensures
        decides(v, |x: T| p1(x) || p2(x)),
{
}

} // verus!
