use blockvm::num::Num;
use blockvm::value::{CoercionError, Value};

fn num(raw: i64) -> Num {
    Num::from_raw(raw)
}

#[test]
fn number_five_prints_without_point() {
    assert_eq!(Value::Number(num(5000)).as_string().unwrap(), "5");
}

#[test]
fn number_with_fraction_prints_point() {
    assert_eq!(Value::Number(num(3500)).as_string().unwrap(), "3.5");
}

#[test]
fn negative_fraction_prints_sign_and_trims() {
    assert_eq!(Value::Number(num(-250)).as_string().unwrap(), "-0.25");
    assert_eq!(Value::Number(num(-4000)).as_string().unwrap(), "-4");
    assert_eq!(Value::Number(num(10)).as_string().unwrap(), "0.01");
}

#[test]
fn zero_prints_as_zero() {
    assert_eq!(Value::Number(num(0)).as_string().unwrap(), "0");
}

#[test]
fn text_three_point_five_reads_as_number() {
    assert_eq!(Value::Text("3.5".to_string()).as_number(), Ok(num(3500)));
}

#[test]
fn text_whole_number_reads() {
    assert_eq!(Value::Text("42".to_string()).as_number(), Ok(num(42000)));
}

#[test]
fn negative_text_reads() {
    assert_eq!(Value::Text("-0.25".to_string()).as_number(), Ok(num(-250)));
}

#[test]
fn trailing_point_reads_as_whole() {
    assert_eq!(Value::Text("3.".to_string()).as_number(), Ok(num(3000)));
}

#[test]
fn fraction_digits_past_the_third_are_ignored() {
    assert_eq!(Value::Text("1.23456".to_string()).as_number(), Ok(num(1234)));
}

#[test]
fn non_numeric_text_fails_to_read() {
    assert_eq!(
        Value::Text("abc".to_string()).as_number(),
        Err(CoercionError::NotANumber)
    );
}

#[test]
fn empty_text_fails_to_read() {
    assert_eq!(
        Value::Text(String::new()).as_number(),
        Err(CoercionError::NotANumber)
    );
}

#[test]
fn lone_minus_fails_to_read() {
    assert_eq!(
        Value::Text("-".to_string()).as_number(),
        Err(CoercionError::NotANumber)
    );
}

#[test]
fn lone_point_fails_to_read() {
    assert_eq!(
        Value::Text(".".to_string()).as_number(),
        Err(CoercionError::NotANumber)
    );
}

#[test]
fn boolean_reads_as_one_and_zero() {
    assert_eq!(Value::Boolean(true).as_number(), Ok(num(1000)));
    assert_eq!(Value::Boolean(false).as_number(), Ok(num(0)));
}

#[test]
fn boolean_prints_its_name() {
    assert_eq!(Value::Boolean(true).as_string().unwrap(), "true");
    assert_eq!(Value::Boolean(false).as_string().unwrap(), "false");
}

#[test]
fn only_a_true_boolean_is_a_boolean() {
    assert_eq!(Value::Boolean(true).as_bool(), Some(true));
    assert_eq!(Value::Number(num(1000)).as_bool(), None);
    assert_eq!(Value::Text("true".to_string()).as_bool(), None);
}

#[test]
fn print_then_read_round_trips() {
    for raw in [0i64, 1, -1, 999, 1000, 1001, -3500, 123456, -250] {
        let printed = Value::Number(num(raw)).as_string().unwrap();
        assert_eq!(Value::Text(printed).as_number(), Ok(num(raw)));
    }
}

#[test]
fn arithmetic_is_exact_fixed_point() {
    assert_eq!(num(2000).add(num(3000)), num(5000));
    assert_eq!(num(2500).mul(num(2000)), num(5000));
    assert_eq!(num(1500).div(num(2000)), num(750));
    assert_eq!(num(1000).sub(num(750)), num(250));
}

#[test]
fn division_by_zero_saturates() {
    assert_eq!(num(1000).div(num(0)), num(i64::MAX));
    assert_eq!(num(-1000).div(num(0)), num(i64::MIN));
    assert_eq!(num(0).div(num(0)), num(0));
}

#[test]
fn rounding_operations_are_exact() {
    assert_eq!(num(-3500).floor(), num(-4000));
    assert_eq!(num(3500).floor(), num(3000));
    assert_eq!(num(3100).ceil(), num(4000));
    assert_eq!(num(3500).round(), num(4000));
    assert_eq!(num(-3500).round(), num(-4000));
    assert_eq!(num(-3500).fract(), num(-500));
    assert_eq!(num(-3500).abs(), num(3500));
    assert_eq!(num(2500).square(), num(6250));
}

#[test]
fn quotient_and_remainder_are_exact() {
    assert_eq!(num(7000).quotient(num(2000)), num(3000));
    assert_eq!(num(-7000).quotient(num(2000)), num(-4000));
    assert_eq!(num(7000).rem(num(2000)), num(1000));
    assert_eq!(num(-7000).rem(num(2000)), num(-1000));
}
