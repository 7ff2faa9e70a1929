use velvetio::validators::{and, in_range, is_positive, max_length, min_length, not_empty, or};

#[test]
fn not_empty_looks_at_the_trimmed_text() {
    assert!(not_empty(&"a".to_string()));
    assert!(not_empty(&"  a  ".to_string()));
    assert!(!not_empty(&"   ".to_string()));
    assert!(!not_empty(&"\t\n".to_string()));
}

#[test]
fn length_bounds() {
    assert!(min_length(5)(&"hello".to_string()));
    assert!(!min_length(6)(&"hello".to_string()));
    assert!(min_length(0)(&"".to_string()));
    assert!(max_length(5)(&"hello".to_string()));
    assert!(!max_length(4)(&"hello".to_string()));
    assert!(max_length(0)(&"".to_string()));
    assert!(min_length(2)(&"é".to_string()));
    assert!(!max_length(1)(&"é".to_string()));
}

#[test]
fn positive_is_above_zero() {
    assert!(is_positive(&1));
    assert!(!is_positive(&0));
    assert!(!is_positive(&-1));
    assert!(is_positive(&1u8));
    assert!(is_positive(&0.5f64));
    assert!(!is_positive(&-0.5f64));
}

#[test]
fn range_includes_its_ends() {
    let v = in_range(1, 10);
    assert!(v(&1));
    assert!(v(&10));
    assert!(v(&5));
    assert!(!v(&0));
    assert!(!v(&11));
    let empty = in_range(3, 2);
    assert!(!empty(&2));
    assert!(!empty(&3));
}

#[test]
fn and_is_the_conjunction() {
    let samples = ["", "a", "abc", "abcdef", "   ", "  ab  "];
    for s in samples {
        let x = s.to_string();
        let both = and(min_length(2), max_length(4));
        assert_eq!(both(&x), min_length(2)(&x) && max_length(4)(&x));
        let both = and(not_empty, min_length(3));
        assert_eq!(both(&x), not_empty(&x) && min_length(3)(&x));
    }
    for n in [-5, 0, 1, 5, 10, 11] {
        let both = and(is_positive::<i32>, in_range(0, 10));
        assert_eq!(both(&n), is_positive(&n) && in_range(0, 10)(&n));
    }
}

#[test]
fn or_is_the_disjunction() {
    let samples = ["", "a", "abc", "abcdef", "   ", "  ab  "];
    for s in samples {
        let x = s.to_string();
        let either = or(min_length(5), max_length(1));
        assert_eq!(either(&x), min_length(5)(&x) || max_length(1)(&x));
        let either = or(not_empty, max_length(0));
        assert_eq!(either(&x), not_empty(&x) || max_length(0)(&x));
    }
    for n in [-5, 0, 1, 5, 10, 11] {
        let either = or(in_range(-5, -1), in_range(5, 10));
        assert_eq!(either(&n), in_range(-5, -1)(&n) || in_range(5, 10)(&n));
    }
}
