use velvetio::prelude::{form, is_positive, min_length, not_empty, Parse, VelvetIOError};

#[derive(Debug, PartialEq)]
struct TestType(String);

impl std::str::FromStr for TestType {
    type Err = ();

    fn from_str(s: &str) -> Result<Self, ()> {
        Ok(TestType(s.to_string()))
    }
}

impl Parse for TestType {
    fn parse(input: &str) -> Result<Self, VelvetIOError> {
        input.trim().parse().map_err(|_| VelvetIOError::parse_error(input, "TestType"))
    }

    fn describe() -> &'static str {
        "TestType"
    }
}

#[test]
fn test_parse_trait_exports() {
    assert_eq!(<String as Parse>::describe(), "text");
    assert_eq!(<u32 as Parse>::describe(), "positive integer");
    assert_eq!(<bool as Parse>::describe(), "boolean");
}

#[test]
fn test_error_creation() {
    let error = VelvetIOError::new("test", "input", "expected");
    assert_eq!(error.message, "test");

    let result: Result<String, VelvetIOError> = Ok("success".to_string());
    assert!(result.is_ok());
}

#[test]
fn test_validators() {
    assert!(not_empty(&"hello".to_string()));
    assert!(!not_empty(&"".to_string()));
    assert!(min_length(3)(&"hello".to_string()));
    assert!(!min_length(10)(&"hello".to_string()));
    assert!(is_positive(&42));
    assert!(!is_positive(&0));
}

#[test]
fn test_form_builder_creation() {
    let _form = form()
        .text("name", "Name")
        .number("age", "Age")
        .boolean("active", "Active?")
        .choice("role", "Role", &["User", "Admin"])
        .optional("bio", "Bio");
}

#[test]
fn test_quick_parse_macro() {
    let result = TestType::parse("hello").unwrap();
    assert_eq!(result, TestType("hello".to_string()));
    assert_eq!(TestType::describe(), "TestType");
}

#[test]
fn test_prelude_imports() {
    let _error = VelvetIOError::new("test", "input", "expected");
    let _result: Result<String, VelvetIOError> = Ok("test".to_string());
    assert!(not_empty(&"hello".to_string()));

    let _form = form().text("test", "Test field");
}
