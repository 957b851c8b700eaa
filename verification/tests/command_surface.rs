use modex::command::{greet, invoke, CommandError, GreetArgs};
use modex::ffi::native_add;
use modex::numeral::u64_to_decimal;

#[test]
fn greet_command_splices_in_the_native_sum() {
    let r = invoke("greet", GreetArgs { name: Some(String::from("Ada")) });
    assert_eq!(r.unwrap(), "Hello, Ada! value is 22");
}

#[test]
fn greet_formats_any_name() {
    assert_eq!(greet("Ada"), "Hello, Ada! value is 22");
    assert_eq!(greet(""), "Hello, ! value is 22");
    assert_eq!(greet("world"), "Hello, world! value is 22");
}

#[test]
fn unknown_command_is_rejected_as_such() {
    let r = invoke("frobnicate", GreetArgs { name: Some(String::from("Ada")) });
    assert_eq!(r.unwrap_err(), CommandError::UnknownCommand);
}

#[test]
fn greet_without_name_is_a_missing_argument() {
    let r = invoke("greet", GreetArgs { name: None });
    assert_eq!(r.unwrap_err(), CommandError::MissingArgument);
}

#[test]
fn native_add_returns_exact_sums_in_range() {
    assert_eq!(native_add(10, 12), 22);
    assert_eq!(native_add(0, 0), 0);
    assert_eq!(native_add(u64::MAX, 0), u64::MAX);
    assert_eq!(native_add(1, u64::MAX - 1), u64::MAX);
    assert_eq!(native_add(123_456_789, 987_654_321), 1_111_111_110);
}

#[test]
fn native_add_wraps_as_documented_past_the_return_width() {
    assert_eq!(native_add(u64::MAX, 1), 0);
    assert_eq!(native_add(u64::MAX, 5), 4);
    assert_eq!(native_add(u64::MAX, u64::MAX), u64::MAX - 1);
}

#[test]
fn decimal_rendering_is_exact() {
    assert_eq!(u64_to_decimal(0), "0");
    assert_eq!(u64_to_decimal(7), "7");
    assert_eq!(u64_to_decimal(22), "22");
    assert_eq!(u64_to_decimal(100), "100");
    assert_eq!(u64_to_decimal(1_234_567_890), "1234567890");
    assert_eq!(u64_to_decimal(u64::MAX), "18446744073709551615");
}
