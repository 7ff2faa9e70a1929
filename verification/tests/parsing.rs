use velvetio::numbers::{parse_signed, parse_unsigned};
use velvetio::parser::{check_arity, split_list, split_tuple};
use velvetio::{Parse, VelvetIOError};

#[derive(Debug, PartialEq, Clone, Copy)]
struct Real(f64);

impl Parse for Real {
    fn parse(input: &str) -> Result<Self, VelvetIOError> {
        match input.trim().parse::<f64>() {
            Ok(v) => Ok(Real(v)),
            Err(_) => Err(VelvetIOError::parse_error(input, "decimal number")),
        }
    }

    fn describe() -> &'static str {
        "decimal number"
    }
}

fn strings(items: &[&str]) -> Vec<Vec<char>> {
    items.iter().map(|s| s.chars().collect()).collect()
}

#[test]
fn text_is_taken_as_it_is() {
    assert_eq!(String::parse("  hello world ").unwrap(), "  hello world ");
    assert_eq!(String::parse("").unwrap(), "");
}

#[test]
fn boolean_words_for_yes() {
    for word in ["true", "t", "yes", "y", "1", "on", "TRUE", "Yes", " oN ", "Y"] {
        assert_eq!(bool::parse(word).unwrap(), true);
    }
}

#[test]
fn boolean_words_for_no() {
    for word in ["false", "f", "no", "n", "0", "off", "FALSE", "No", " oFF\n", "N"] {
        assert_eq!(bool::parse(word).unwrap(), false);
    }
}

#[test]
fn boolean_refuses_other_text() {
    let e = bool::parse("maybe").unwrap_err();
    assert_eq!(e.expected, "boolean (yes/no, true/false, y/n, 1/0)");
    assert_eq!(e.input, "maybe");
    assert_eq!(e.message, "Cannot parse 'maybe' as boolean (yes/no, true/false, y/n, 1/0)");
    assert!(bool::parse("").is_err());
    assert!(bool::parse("2").is_err());
    assert!(bool::parse("y es").is_err());
}

#[test]
fn character_is_exactly_one() {
    assert_eq!(char::parse("a").unwrap(), 'a');
    assert_eq!(char::parse("  z\n").unwrap(), 'z');
    assert_eq!(char::parse("é").unwrap(), 'é');
    let e = char::parse("ab").unwrap_err();
    assert_eq!(e.expected, "single character");
    assert_eq!(e.input, "ab");
    assert!(char::parse("").is_err());
    assert!(char::parse("   ").is_err());
}

#[test]
fn unsigned_integers() {
    assert_eq!(u8::parse("255").unwrap(), 255);
    assert_eq!(u8::parse(" 0 ").unwrap(), 0);
    assert_eq!(u8::parse("+7").unwrap(), 7);
    assert_eq!(u8::parse("007").unwrap(), 7);
    assert!(u8::parse("256").is_err());
    assert!(u8::parse("-1").is_err());
    assert!(u8::parse("-0").is_err());
    assert!(u8::parse("").is_err());
    assert!(u8::parse("+").is_err());
    assert!(u8::parse("1 2").is_err());
    assert!(u8::parse("1_0").is_err());
    assert_eq!(u16::parse("65535").unwrap(), 65535);
    assert!(u16::parse("65536").is_err());
    assert_eq!(u32::parse("4294967295").unwrap(), u32::MAX);
    assert!(u32::parse("4294967296").is_err());
    assert_eq!(u64::parse("18446744073709551615").unwrap(), u64::MAX);
    assert!(u64::parse("18446744073709551616").is_err());
    assert_eq!(u128::parse("340282366920938463463374607431768211455").unwrap(), u128::MAX);
    assert!(u128::parse("340282366920938463463374607431768211456").is_err());
    assert_eq!(usize::parse("42").unwrap(), 42);
}

#[test]
fn signed_integers() {
    assert_eq!(i8::parse("-128").unwrap(), -128);
    assert_eq!(i8::parse("127").unwrap(), 127);
    assert_eq!(i8::parse("+5").unwrap(), 5);
    assert_eq!(i8::parse("-0").unwrap(), 0);
    assert!(i8::parse("128").is_err());
    assert!(i8::parse("-129").is_err());
    assert!(i8::parse("-").is_err());
    assert!(i8::parse("--1").is_err());
    assert!(i8::parse("1.5").is_err());
    assert_eq!(i16::parse("-32768").unwrap(), i16::MIN);
    assert!(i16::parse("32768").is_err());
    assert_eq!(i32::parse(" -2147483648 ").unwrap(), i32::MIN);
    assert!(i32::parse("2147483648").is_err());
    assert_eq!(i64::parse("9223372036854775807").unwrap(), i64::MAX);
    assert!(i64::parse("9223372036854775808").is_err());
    assert_eq!(i128::parse("-170141183460469231731687303715884105728").unwrap(), i128::MIN);
    assert!(i128::parse("170141183460469231731687303715884105728").is_err());
    assert_eq!(isize::parse("-42").unwrap(), -42);
}

#[test]
fn integer_failures_describe_the_range() {
    assert_eq!(u8::parse("abc").unwrap_err().expected, "positive integer (0 to 255)");
    assert_eq!(u16::parse("abc").unwrap_err().expected, "positive integer (0 to 65,535)");
    assert_eq!(u64::parse("abc").unwrap_err().expected, "positive integer");
    assert_eq!(i8::parse("abc").unwrap_err().expected, "integer (-128 to 127)");
    assert_eq!(i16::parse("abc").unwrap_err().expected, "integer (-32,768 to 32,767)");
    assert_eq!(i64::parse("abc").unwrap_err().expected, "integer");
    let e = u8::parse(" 300 ").unwrap_err();
    assert_eq!(e.input, " 300 ");
    assert_eq!(e.message, "Cannot parse ' 300 ' as positive integer (0 to 255)");
}

#[test]
fn integer_names() {
    assert_eq!(<i8 as Parse>::describe(), "integer (-128 to 127)");
    assert_eq!(<i16 as Parse>::describe(), "integer (-32,768 to 32,767)");
    assert_eq!(<i32 as Parse>::describe(), "integer");
    assert_eq!(<i128 as Parse>::describe(), "integer");
    assert_eq!(<isize as Parse>::describe(), "integer");
    assert_eq!(<u8 as Parse>::describe(), "positive integer (0 to 255)");
    assert_eq!(<u16 as Parse>::describe(), "positive integer (0 to 65,535)");
    assert_eq!(<u128 as Parse>::describe(), "positive integer");
    assert_eq!(<usize as Parse>::describe(), "positive integer");
    assert_eq!(<char as Parse>::describe(), "character");
    assert_eq!(<Option<u8> as Parse>::describe(), "optional value (or empty/none for no value)");
    assert_eq!(<Vec<u8> as Parse>::describe(), "list of values");
    assert_eq!(<(u8, u8) as Parse>::describe(), "pair of values");
    assert_eq!(<(u8, u8, u8) as Parse>::describe(), "triple of values");
}

#[test]
fn wide_numbers_are_trimmed_first() {
    assert_eq!(parse_unsigned("  12\n"), Some(12));
    assert_eq!(parse_unsigned("-12"), None);
    assert_eq!(parse_signed("\t-12 "), Some(-12));
    assert_eq!(parse_signed("twelve"), None);
}

#[test]
fn integers_round_trip_through_their_text() {
    for v in [0i64, 1, -1, 9, 10, 99, 100, -100, 12345, i64::MAX, i64::MIN] {
        assert_eq!(i64::parse(&v.to_string()).unwrap(), v);
    }
    for v in [0u8, 9, 10, 255] {
        assert_eq!(u8::parse(&v.to_string()).unwrap(), v);
    }
    for b in [true, false] {
        assert_eq!(bool::parse(&b.to_string()).unwrap(), b);
    }
    for c in ['a', 'Z', '0', '-', 'é'] {
        assert_eq!(char::parse(&c.to_string()).unwrap(), c);
    }
    assert_eq!(String::parse("some text").unwrap().to_string(), "some text");
}

#[test]
fn optional_integer() {
    assert_eq!(Option::<i32>::parse("").unwrap(), None);
    assert_eq!(Option::<i32>::parse("none").unwrap(), None);
    assert_eq!(Option::<i32>::parse("NONE").unwrap(), None);
    assert_eq!(Option::<i32>::parse("-").unwrap(), None);
    assert_eq!(Option::<i32>::parse("5").unwrap(), Some(5));
}

#[test]
fn optional_words_for_nothing() {
    for word in ["   ", "null", "Nil", "SKIP", " skip ", "NuLL"] {
        assert_eq!(Option::<u8>::parse(word).unwrap(), None);
    }
    assert_eq!(Option::<String>::parse(" nothing ").unwrap(), Some("nothing".to_string()));
}

#[test]
fn optional_passes_the_inner_failure_on() {
    let e = Option::<u8>::parse(" abc ").unwrap_err();
    assert_eq!(e.expected, "positive integer (0 to 255)");
    assert_eq!(e.input, "abc");
    assert_eq!(e.message, "Cannot parse 'abc' as positive integer (0 to 255)");
}

#[test]
fn list_separator_priority() {
    assert_eq!(split_list("1,2;3"), strings(&["1", "2;3"]));
    assert_eq!(split_list("1;2"), strings(&["1", "2"]));
    assert_eq!(split_list("1 2"), strings(&["1", "2"]));
    assert_eq!(split_list("1|2;3"), strings(&["1|2", "3"]));
    assert_eq!(split_list("1|2 3"), strings(&["1", "2 3"]));
    assert!(Vec::<u8>::parse("1,2;3").is_err());
    assert_eq!(Vec::<String>::parse("1,2;3").unwrap(), vec!["1".to_string(), "2;3".to_string()]);
    assert_eq!(Vec::<u8>::parse("1;2").unwrap(), vec![1, 2]);
    assert_eq!(Vec::<u8>::parse("1 2").unwrap(), vec![1, 2]);
}

#[test]
fn list_pieces_are_trimmed_and_empty_ones_dropped() {
    assert_eq!(Vec::<u8>::parse("").unwrap(), Vec::<u8>::new());
    assert_eq!(Vec::<u8>::parse("   ").unwrap(), Vec::<u8>::new());
    assert_eq!(Vec::<u8>::parse(" 1 , 2 ,, 3 , ").unwrap(), vec![1, 2, 3]);
    assert_eq!(Vec::<u8>::parse(",").unwrap(), Vec::<u8>::new());
    assert_eq!(Vec::<u8>::parse("1 |2|  3").unwrap(), vec![1, 2, 3]);
    assert_eq!(Vec::<u8>::parse("  4 \t 5\n6  ").unwrap(), vec![4, 5, 6]);
    assert_eq!(Vec::<u8>::parse("7").unwrap(), vec![7]);
    assert_eq!(split_list(" a b , c "), strings(&["a b", "c"]));
}

#[test]
fn list_failure_names_the_item_type() {
    let e = Vec::<u8>::parse("1, x, 3").unwrap_err();
    assert_eq!(e.expected, "list of positive integer (0 to 255)");
    assert_eq!(e.input, "1, x, 3");
    assert_eq!(e.message, "Cannot parse '1, x, 3' as list of positive integer (0 to 255)");
    assert_eq!(Vec::<bool>::parse("yes maybe").unwrap_err().expected, "list of boolean");
}

#[test]
fn pair_of_decimals() {
    assert_eq!(<(Real, Real)>::parse("1.5,2.5").unwrap(), (Real(1.5), Real(2.5)));
    assert_eq!(<(Real, Real)>::parse("1.5 2.5").unwrap(), (Real(1.5), Real(2.5)));
    assert!(<(Real, Real)>::parse("1.5").is_err());
}

#[test]
fn pair_parts() {
    assert_eq!(split_tuple("1.5,2.5"), strings(&["1.5", "2.5"]));
    assert_eq!(split_tuple(" 1.5 , 2.5 "), strings(&["1.5", "2.5"]));
    assert_eq!(split_tuple("  1.5   2.5 "), strings(&["1.5", "2.5"]));
    assert_eq!(split_tuple("1,,2"), strings(&["1", "", "2"]));
    assert_eq!(split_tuple("1,"), strings(&["1", ""]));
    assert_eq!(split_tuple(""), strings(&[]));
    assert!(check_arity(&strings(&["1", "2"]), 2));
    assert!(!check_arity(&strings(&["1", ""]), 2));
    assert!(!check_arity(&strings(&["1", "2", "3"]), 2));
    assert!(!check_arity(&strings(&["1"]), 2));
}

#[test]
fn pair_failures() {
    let e = <(u8, bool)>::parse("1").unwrap_err();
    assert_eq!(e.expected, "pair of values (separate with comma or space)");
    assert_eq!(e.input, "1");
    assert_eq!(<(u8, bool)>::parse("1,2,3").unwrap_err().expected, "pair of values (separate with comma or space)");
    assert_eq!(<(u8, String)>::parse("1,").unwrap_err().expected, "pair of values (separate with comma or space)");
    assert_eq!(<(u8, bool)>::parse("").unwrap_err().expected, "pair of values (separate with comma or space)");
    let e = <(u8, bool)>::parse("x,yes").unwrap_err();
    assert_eq!(e.expected, "pair: positive integer (0 to 255) and boolean");
    assert_eq!(e.message, "Cannot parse 'x,yes' as pair: positive integer (0 to 255) and boolean");
    assert_eq!(<(u8, bool)>::parse("1,perhaps").unwrap_err().expected, "pair: positive integer (0 to 255) and boolean");
    assert_eq!(<(u8, bool)>::parse("1, yes").unwrap(), (1, true));
    assert_eq!(<(i32, char)>::parse("-4 q").unwrap(), (-4, 'q'));
}

#[test]
fn triples() {
    assert_eq!(<(u8, bool, String)>::parse("1, no, abc").unwrap(), (1, false, "abc".to_string()));
    assert_eq!(<(u8, u8, u8)>::parse("1 2 3").unwrap(), (1, 2, 3));
    assert_eq!(<(u8, u8, u8)>::parse("1 2").unwrap_err().expected, "triple of values (separate with comma or space)");
    assert_eq!(<(u8, u8, u8)>::parse("1,2,3,4").unwrap_err().expected, "triple of values (separate with comma or space)");
    assert_eq!(<(u8, u8, u8)>::parse("1,,3").unwrap_err().expected, "triple of values (separate with comma or space)");
    let e = <(u8, u8, u8)>::parse("1,x,3").unwrap_err();
    assert_eq!(e.expected, "triple of values");
    assert_eq!(e.input, "1,x,3");
}

#[test]
fn error_constructors() {
    let e = VelvetIOError::new("m", "i", "x");
    assert_eq!((e.message.as_str(), e.input.as_str(), e.expected.as_str()), ("m", "i", "x"));
    let e = VelvetIOError::parse_error("abc", "number");
    assert_eq!(e.message, "Cannot parse 'abc' as number");
    assert_eq!(e.input, "abc");
    assert_eq!(e.expected, "number");
    assert_eq!(e.to_text(), "Cannot parse 'abc' as number");
    let e = VelvetIOError::validation_error("abc", "too short");
    assert_eq!(e.message, "too short");
    assert_eq!(e.input, "abc");
    assert_eq!(e.expected, "valid input");
    let e = VelvetIOError::channel_error("stream closed");
    assert_eq!(e.message, "Input error: stream closed");
    assert_eq!(e.input, "");
    assert_eq!(e.expected, "valid input");
    let copy = e.clone();
    assert_eq!(copy.message, e.message);
}

#[test]
fn trimming_twice_changes_nothing() {
    for text in ["", "   ", " a ", "\t a b \n", "a", "\u{a0}x\u{3000}"] {
        let once = Option::<String>::parse(text).unwrap();
        if let Some(t) = once {
            assert_eq!(Option::<String>::parse(&t).unwrap(), Some(t.clone()));
            assert_eq!(t, text.trim());
        } else {
            assert_eq!(text.trim(), "");
        }
    }
}
