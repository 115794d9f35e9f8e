use sava_chain::chain::ChainExec;
use sava_chain::sample::{SomeData, SomeDataValidator, SomeError};

#[test]
fn simple_chain() {
    let test_data = SomeData("  a nice string b  ".to_owned());

    let sava_result = SomeDataValidator::execute(test_data);

    assert_eq!(sava_result.unwrap(), SomeData("a nice string b".to_owned()));
}

#[test]
fn chain_error_one() {
    let test_data = SomeData("  b nice string b  ".to_owned());

    let sava_result = SomeDataValidator::execute(test_data);

    assert_eq!(sava_result.unwrap_err(), SomeError::Error1);
}

#[test]
fn chain_error_two() {
    let test_data = SomeData("  a nice string a  ".to_owned());

    let sava_result = SomeDataValidator::execute(test_data);

    assert_eq!(sava_result.unwrap_err(), SomeError::Error2);
}

#[test]
fn input_same_as_sanitized() {
    let test_data = SomeData("a nice string b".to_owned());

    let sava_result = SomeDataValidator::execute(test_data);

    assert_eq!(sava_result.unwrap(), SomeData("a nice string b".to_owned()));
}
