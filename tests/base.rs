use rsml::base::{Auto, Length, ParseError, Percentage};

#[test]
fn auto_test_auto_from_str() {
    let result: Auto<i32> = "auto".parse().unwrap();
    assert_eq!(result, Auto::Auto);

    let result: Auto<i32> = "Auto".parse().unwrap();
    assert_eq!(result, Auto::Auto);

    let result: Auto<i32> = "AUTO".parse().unwrap();
    assert_eq!(result, Auto::Auto);

    let result: Auto<i32> = "42".parse().unwrap();
    assert_eq!(result, Auto::Value(42));

    let result: Auto<String> = "hello".parse().unwrap();
    assert_eq!(result, Auto::Value("hello".to_string()));

    let result: Result<Auto<i32>, _> = "not_a_number".parse();
    assert!(result.is_err());
}

#[test]
fn base_test_auto_from_str() {
    let result: Auto<i32> = "auto".parse().unwrap();
    assert_eq!(result, Auto::Auto);

    let result: Auto<i32> = "Auto".parse().unwrap();
    assert_eq!(result, Auto::Auto);

    let result: Auto<i32> = "AUTO".parse().unwrap();
    assert_eq!(result, Auto::Auto);

    let result: Auto<i32> = "42".parse().unwrap();
    assert_eq!(result, Auto::Value(42));

    let result: Auto<String> = "hello".parse().unwrap();
    assert_eq!(result, Auto::Value("hello".to_string()));

    let result: Result<Auto<i32>, _> = "not_a_number".parse();
    assert!(result.is_err());
}

#[test]
fn test_auto_methods() {
    let auto: Auto<i32> = Auto::Auto;
    assert!(auto.is_auto());
    assert!(!auto.is_value());
    assert_eq!(auto.as_value(), None);
    assert_eq!(auto.clone().value(), None);

    let value: Auto<i32> = Auto::Value(42);
    assert!(!value.is_auto());
    assert!(value.is_value());
    assert_eq!(value.as_value(), Some(&42));
    assert_eq!(value.clone().value(), Some(42));
}

#[test]
fn test_length_creation() {
    let len = Length::from_mm(1000);
    assert_eq!(len.mm(), 1000);
    assert_eq!(len.cm(), 100);
    assert_eq!(len.m(), 1);

    let len = Length::from_cm(150);
    assert_eq!(len.mm(), 1500);
    assert_eq!(len.cm(), 150);
    assert_eq!(len.m(), 1);

    let len = Length::from_m(2);
    assert_eq!(len.mm(), 2000);
    assert_eq!(len.cm(), 200);
    assert_eq!(len.m(), 2);
}

#[test]
fn auto_test_length_from_str() {
    let len: Length = "3mm".parse().unwrap();
    assert_eq!(len.mm(), 3);

    let len: Length = "5cm".parse().unwrap();
    assert_eq!(len.mm(), 50);

    let len: Length = "2m".parse().unwrap();
    assert_eq!(len.mm(), 2000);

    let len: Length = "10".parse().unwrap();
    assert_eq!(len.mm(), 10);

    let len: Length = "1.5cm".parse().unwrap();
    assert_eq!(len.mm(), 15);

    let len: Length = " 3 mm ".parse().unwrap();
    assert_eq!(len.mm(), 3);
}

#[test]
fn base_test_length_from_str() {
    let len: Length = "3mm".parse().unwrap();
    assert_eq!(len.mm(), 3);

    let len: Length = "5cm".parse().unwrap();
    assert_eq!(len.mm(), 50);

    let len: Length = "2m".parse().unwrap();
    assert_eq!(len.mm(), 2000);

    let len: Length = "10".parse().unwrap();
    assert_eq!(len.mm(), 10);
}

#[test]
fn test_length_display() {
    let len = Length::from_mm(5);
    assert_eq!(len.to_string(), "5mm");

    let len = Length::from_mm(50);
    assert_eq!(len.to_string(), "5cm");

    let len = Length::from_mm(5000);
    assert_eq!(len.to_string(), "5m");

    let len = Length::from_mm(55);
    assert_eq!(len.to_string(), "55mm");

    let len = Length::from_mm(550);
    assert_eq!(len.to_string(), "55cm");
}

#[test]
fn auto_test_length_from_str_errors() {
    let result: Result<Length, _> = "abcmm".parse();
    assert!(result.is_err());

    let result: Result<Length, _> = "5km".parse();
    assert!(result.is_err());

    let result: Result<Length, _> = "-5mm".parse();
    assert!(result.is_err());

    let result: Result<Length, _> = "".parse();
    assert!(result.is_err());
}

#[test]
fn base_test_length_from_str_errors() {
    let result: Result<Length, _> = "abcmm".parse();
    assert!(result.is_err());

    let result: Result<Length, _> = "5km".parse();
    assert!(result.is_err());

    let result: Result<Length, _> = "-5mm".parse();
    assert!(result.is_err());

    let result: Result<Length, _> = "".parse();
    assert!(result.is_err());
}

#[test]
fn test_length_add() {
    let len1 = Length::from_mm(100);
    let len2 = Length::from_mm(200);
    let result = len1 + len2;
    assert_eq!(result, Length::from_mm(300));
}

#[test]
fn test_length_add_assign() {
    let mut len1 = Length::from_mm(100);
    let len2 = Length::from_mm(200);

    len1 += len2;
    assert_eq!(len1, Length::from_mm(300));
}

#[test]
fn test_length_sum() {
    let lengths = vec![Length::from_mm(100), Length::from_mm(200), Length::from_mm(300)];
    let total: Length = lengths.iter().copied().fold(Length::from_mm(0), |acc, x| acc + x);
    assert_eq!(total, Length::from_mm(600));
}

#[test]
fn length_format_picks_largest_exact_unit() {
    assert_eq!(Length::from_cm(150).to_string(), "150cm");
    assert_eq!(Length::from_mm(1500).to_string(), "150cm");
    assert_eq!(Length::from_cm(15).to_string(), "15cm");
    assert_eq!(Length::from_mm(1500).to_string(), Length::from_cm(150).to_string());
    assert_eq!(Length::from_mm(551).to_string(), "551mm");
    assert_eq!(Length::from_mm(0).to_string(), "0m");
}

#[test]
fn length_arithmetic_saturates() {
    let big = Length::from_mm(u32::MAX - 1);
    assert_eq!(big + Length::from_mm(10), Length::from_mm(u32::MAX));
    assert_eq!(Length::from_mm(5) - Length::from_mm(10), Length::from_mm(0));
    assert_eq!(Length::from_mm(5) - Length::from_mm(3), Length::from_mm(2));
    assert_eq!(Length::from_mm(u32::MAX / 2) * 3, Length::from_mm(u32::MAX));
    assert_eq!(Length::from_mm(7) * 3, Length::from_mm(21));
    assert_eq!(Length::from_mm(7) / 2, Length::from_mm(3));
    assert_eq!(Length::from_mm(7) / 0, Length::from_mm(0));
    assert_eq!(Length::from_cm(u32::MAX), Length::from_mm(u32::MAX));
    assert_eq!(Length::from_m(5_000_000), Length::from_mm(u32::MAX));
}

#[test]
fn length_parse_errors_by_kind() {
    assert_eq!(Length::from_str("   "), Err(ParseError::Empty));
    assert_eq!(Length::from_str("abcmm"), Err(ParseError::InvalidNumber));
    assert_eq!(Length::from_str("1.2.3mm"), Err(ParseError::InvalidNumber));
    assert_eq!(Length::from_str(".mm"), Err(ParseError::InvalidNumber));
    assert_eq!(Length::from_str("5km"), Err(ParseError::UnknownUnit));
    assert_eq!(Length::from_str("4294968m"), Err(ParseError::TooLarge));
    assert_eq!(Length::from_str("99999999999999999999"), Err(ParseError::TooLarge));
}

#[test]
fn length_parse_fractions_truncate() {
    assert_eq!(Length::from_str("1.2345m"), Ok(Length::from_mm(1234)));
    assert_eq!(Length::from_str(".5cm"), Ok(Length::from_mm(5)));
    assert_eq!(Length::from_str("2.cm"), Ok(Length::from_mm(20)));
    assert_eq!(Length::from_str("1.99"), Ok(Length::from_mm(1)));
    assert_eq!(Length::from_str("10CM"), Ok(Length::from_mm(100)));
    assert_eq!(Length::from_str("4294967295"), Ok(Length::from_mm(u32::MAX)));
}

#[test]
fn percentage_parse() {
    assert_eq!(Percentage::from_str("50%"), Ok(Percentage::new(50)));
    assert_eq!(Percentage::from_str(" +7% "), Ok(Percentage::new(7)));
    assert_eq!(Percentage::from_str("100%"), Ok(Percentage::new(100)));
    assert_eq!(Percentage::from_str("101%"), Err(ParseError::PercentageOutOfRange));
    assert_eq!(Percentage::from_str("50"), Err(ParseError::MissingPercentSign));
    assert_eq!(Percentage::from_str("x%"), Err(ParseError::InvalidNumber));
    assert_eq!(Percentage::from_str(""), Err(ParseError::Empty));
    assert_eq!(Percentage::new(50).value(), 50);
    assert_eq!(Percentage::new(50).to_string(), "50%");
}

#[test]
fn auto_of_i32_parses_signs() {
    let v: Auto<i32> = "-17".parse().unwrap();
    assert_eq!(v, Auto::Value(-17));
    let v: Auto<i32> = "+17".parse().unwrap();
    assert_eq!(v, Auto::Value(17));
    let v: Result<Auto<i32>, _> = "2147483648".parse();
    assert!(v.is_err());
    let v: Auto<i32> = "-2147483648".parse().unwrap();
    assert_eq!(v, Auto::Value(i32::MIN));
}
