use sava_chain::chain::ChainExec;
use sava_chain::composite::{FieldAdapter, FieldExec, Then};
use sava_chain::sample::{
    MyData, MyData2, MyValidator, SomeData, SomeError, ToError, ToValidate,
};

#[test]
fn basic_error() {
    let to_validate = ToValidate {
        my_data: String::from("a   "),
        my_data2: String::from("   b   "),
    };

    let result = MyValidator::execute(to_validate);

    assert_eq!(result.unwrap_err(), ToError::Error1(SomeError::Error2))
}

#[test]
fn basic_ok() {
    let to_validate = ToValidate {
        my_data: String::from("ab   "),
        my_data2: String::from(" a c b   "),
    };

    let result = MyValidator::execute(to_validate);

    assert_eq!(
        result.unwrap(),
        ToValidate {
            my_data: String::from("ab"),
            my_data2: String::from("a c b"),
        }
    )
}

fn record(first: &str, second: &str) -> ToValidate {
    ToValidate { my_data: String::from(first), my_data2: String::from(second) }
}

#[test]
fn first_registered_field_is_reported() {
    let result = MyValidator::execute(record("a", "b"));
    assert_eq!(result.unwrap_err(), ToError::Error1(SomeError::Error2));

    let swapped = Then::<FieldExec<MyData2, ToError>, FieldExec<MyData, ToError>>::execute(
        record("a", "b"),
    );
    assert_eq!(swapped.unwrap_err(), ToError::Error1(SomeError::Error1));
}

#[test]
fn second_field_fails_after_first_passed() {
    let result = MyValidator::execute(record(" ab ", " b "));

    assert_eq!(result.unwrap_err(), ToError::Error1(SomeError::Error1));
}

#[test]
fn uncovered_field_is_left_alone() {
    let first_only = FieldExec::<MyData, ToError>::execute(record("  ab  ", "  not a chain value  "));
    assert_eq!(first_only.unwrap(), record("ab", "  not a chain value  "));

    let second_only = FieldExec::<MyData2, ToError>::execute(record("  zz  ", "  ab  "));
    assert_eq!(second_only.unwrap(), record("  zz  ", "ab"));
}

#[test]
fn single_field_failure_is_wrapped() {
    let result = FieldExec::<MyData2, ToError>::execute(record("ab", "a"));

    assert_eq!(result.unwrap_err(), ToError::Error1(SomeError::Error2));
}

#[test]
fn composite_rerun_on_own_output_changes_nothing() {
    let first = MyValidator::execute(record("ab   ", " a c b   ")).unwrap();

    let second = MyValidator::execute(first).unwrap();

    assert_eq!(second, record("ab", "a c b"));
}

#[test]
fn aggregate_error_wraps_each_leaf_error() {
    assert_eq!(ToError::from(SomeError::Error1), ToError::Error1(SomeError::Error1));
    assert_eq!(ToError::from(SomeError::Error2), ToError::Error1(SomeError::Error2));
    assert_ne!(ToError::from(SomeError::Error1), ToError::from(SomeError::Error2));
}

#[test]
fn adapters_read_and_write_their_own_field() {
    let mut value = record("one", "two");

    assert_eq!(MyData::extract(&value), SomeData(String::from("one")));
    assert_eq!(MyData2::extract(&value), SomeData(String::from("two")));

    MyData::combine(&mut value, SomeData(String::from("uno")));
    assert_eq!(value, record("uno", "two"));
    MyData2::combine(&mut value, SomeData(String::from("dos")));
    assert_eq!(value, record("uno", "dos"));

    let read = MyData::extract(&value);
    MyData::combine(&mut value, read);
    assert_eq!(value, record("uno", "dos"));
}

#[test]
fn default_record_is_empty() {
    assert_eq!(ToValidate::default(), record("", ""));
}
