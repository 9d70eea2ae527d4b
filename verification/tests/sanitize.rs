use stalkermap::utils::sanitize::{DesiredType, Sanitize};
use std::str::FromStr;

#[test]
fn sanitize_test_sanitize_match_string_sucess() {
    let filter = Sanitize::MatchString("hello".to_string());
    assert!(filter.validate("hello").is_ok());
}

#[test]
fn sanitize_test_sanitize_match_string_fail() {
    let filter = Sanitize::MatchString("hello".to_string());
    let res = filter.validate("world");
    assert!(res.is_err());
    if let Err(e) = res {
        assert_eq!(e.message(), "The value doesn't match with hello, try again!");
    }
}

#[test]
fn sanitize_match_sanitize_match_strings_sucess() {
    let filter = Sanitize::MatchStrings(vec!["A".to_string(), "B".to_string()]);
    assert!(filter.validate("A").is_ok());
    assert!(filter.validate("B").is_ok());
}

#[test]
fn sanitize_test_sanitize_match_strings_fail() {
    let filter = Sanitize::MatchStrings(vec!["A".to_string(), "B".to_string()]);
    let res = filter.validate("C");
    assert!(res.is_err());
    if let Err(e) = res {
        assert_eq!(
            e.message(),
            "The value doesn't match with the options: A, B, try again!"
        );
    }
}

#[test]
fn sanitize_test_sanitize_is_type_bool() {
    let filter = Sanitize::IsType(DesiredType::Bool);
    assert!(filter.validate("true").is_ok());
    assert!(filter.validate("false").is_ok());
    assert!(filter.validate("maybe").is_err());
}

#[test]
fn sanitize_test_sanitize_is_type_u8() {
    let filter = Sanitize::IsType(DesiredType::U8);
    assert!(filter.validate("42").is_ok());
    assert!(filter.validate("-42").is_err());
    assert!(filter.validate("256").is_err()); // u8 max is 255
    assert!(filter.validate("abc").is_err());
}

#[test]
fn sanitize_test_sanitize_is_type_i32() {
    let filter = Sanitize::IsType(DesiredType::I32);
    assert!(filter.validate("-123").is_ok());
    assert!(filter.validate("2147483647").is_ok()); // i32 max
    assert!(filter.validate("2147483648").is_err()); // overflow
}

#[test]
fn test_sanitize_is_type_isize() {
    let filter = Sanitize::IsBetween(10, 20);
    assert!(filter.validate("15").is_ok());
    assert!(filter.validate("25").is_err()); // Over 20
    assert!(filter.validate("-20").is_err()); // overflow
}

#[test]
fn test_sanitize_is_type_from_str() {
    let filter = Sanitize::IsType("u8".parse::<DesiredType>().unwrap());
    assert!(filter.validate("42").is_ok());
    assert!(filter.validate("-42").is_err());
    assert!(filter.validate("256").is_err()); // u8 max is 255
    assert!(filter.validate("abc").is_err());
}

#[test]
fn test_sanitize_is_type_try_from_str() {
    let filter = Sanitize::IsType(DesiredType::try_from("u8").unwrap());
    assert!(filter.validate("42").is_ok());
    assert!(filter.validate("-42").is_err());
    assert!(filter.validate("256").is_err()); // u8 max is 255
    assert!(filter.validate("abc").is_err());
}

#[test]
fn sanitize_test_sanitize_execute_filters_success() {
    let filters = vec![
        Sanitize::IsType(DesiredType::String),
        Sanitize::MatchString("Hello".to_string()),
    ];
    let res = Sanitize::execute("Hello", &filters);
    assert!(res.is_ok());
    assert_eq!(res.unwrap(), "Hello".to_string());
}

#[test]
fn sanitize_test_sanitize_execute_filters_fail() {
    let filters = vec![
        Sanitize::MatchString("Hello".to_string()),
        Sanitize::IsType(DesiredType::Bool),
    ];
    let res = Sanitize::execute("Hello", &filters);
    assert!(res.is_err());
    if let Err(e) = res {
        assert_eq!(e.message(), "The value is not a bool, try again!");
    }
}

#[test]
fn sanitize_test_sanitize_execute_filters_fail2() {
    let filters = vec![
        Sanitize::IsType(DesiredType::Bool),
        Sanitize::IsType(DesiredType::U8),
    ];
    let res = Sanitize::execute("true", &filters);
    assert!(res.is_err());
    if let Err(e) = res {
        assert_eq!(e.message(), "The value is not a u8, try again!");
    }
}

#[test]
fn sanitize_test_sanitize_execute_filters_fail3() {
    let filters = vec![
        Sanitize::IsType(DesiredType::U8),
        Sanitize::IsType(DesiredType::Bool),
    ];
    let res = Sanitize::execute("true", &filters);
    assert!(res.is_err());
    if let Err(e) = res {
        assert_eq!(e.message(), "The value is not a u8, try again!");
    }
}

#[test]
fn sanitize_test_sanitize_execute_filters_fail4() {
    let filters = vec![
        Sanitize::IsType(DesiredType::String),
        Sanitize::MatchStrings(vec![String::from("banana"), String::from("orange")]),
    ];
    let res = Sanitize::execute("watermelon", &filters);
    assert!(res.is_err());
    if let Err(e) = res {
        assert_eq!(
            e.message(),
            "The value doesn't match with the options: banana, orange, try again!"
        );
    }
}

#[test]
fn test_sanitize_execute_trims_whitespace() {
    let res = Sanitize::execute("  Hello \n", &[]);
    assert_eq!(res.unwrap(), "Hello");
}

#[test]
fn test_sanitize_is_between_bounds() {
    let filter = Sanitize::IsBetween(-5, 5);
    assert!(filter.validate("-5").is_ok());
    assert!(filter.validate("5").is_ok());
    assert!(filter.validate("-6").is_err());
    assert!(filter.validate("6").is_err());
    let res = filter.validate("6");
    if let Err(e) = res {
        assert_eq!(e.message(), "The value is not between -5 and 5, try again!");
    }
}

#[test]
fn test_desired_type_unknown_name() {
    let err = DesiredType::from_str("banana").unwrap_err();
    assert_eq!(
        err.message(),
        "The value banana is not available as a type, try again!"
    );
}

#[test]
fn test_sanitize_plus_sign_and_leading_zeros() {
    let filter = Sanitize::IsType(DesiredType::U8);
    assert!(filter.validate("+42").is_ok());
    assert!(filter.validate("0000255").is_ok());
    assert!(filter.validate("+").is_err());
    assert!(filter.validate("").is_err());
}
