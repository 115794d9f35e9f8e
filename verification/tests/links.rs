use sava_chain::chain::Chain;
use sava_chain::link::{execute_links, Link};
use sava_chain::sample::{
    sanitization_one, validation_one, validation_two, SomeCheck, SomeData, SomeDataValidator,
    SomeError, SomeSanitizer,
};

type SomeLink = Link<SomeSanitizer, SomeCheck, SomeError>;

fn data(text: &str) -> SomeData {
    SomeData(text.to_owned())
}

#[test]
fn lib_simple_chain() {
    let test_data = SomeData("  a nice string b  ".to_owned());

    let sava_result = execute_links(SomeDataValidator::chain(), test_data);

    assert_eq!(sava_result.unwrap(), SomeData("a nice string b".to_owned()));
}

#[test]
fn lib_chain_error_one() {
    let test_data = SomeData("  b nice string b  ".to_owned());

    let sava_result = execute_links(SomeDataValidator::chain(), test_data);

    assert_eq!(sava_result.unwrap_err(), SomeError::Error1);
}

#[test]
fn lib_chain_error_two() {
    let test_data = SomeData("  a nice string a  ".to_owned());

    let sava_result = execute_links(SomeDataValidator::chain(), test_data);

    assert_eq!(sava_result.unwrap_err(), SomeError::Error2);
}

#[test]
fn lib_input_same_as_sanitized() {
    let test_data = SomeData("a nice string b".to_owned());

    let sava_result = execute_links(SomeDataValidator::chain(), test_data);

    assert_eq!(sava_result.unwrap(), SomeData("a nice string b".to_owned()));
}

#[test]
fn declared_links_keep_their_order() {
    let links = SomeDataValidator::chain();

    assert_eq!(links.len(), 3);
    assert!(matches!(links[0], Link::Sa(SomeSanitizer)));
    assert!(matches!(links[1], Link::Va(SomeCheck::One, SomeError::Error1)));
    assert!(matches!(links[2], Link::Va(SomeCheck::Two, SomeError::Error2)));
}

#[test]
fn empty_chain_is_identity() {
    let links: Vec<SomeLink> = Vec::new();

    let result = execute_links(links, data("  untouched  "));

    assert_eq!(result.unwrap(), data("  untouched  "));
}

#[test]
fn sanitizers_alone_always_succeed() {
    let links: Vec<SomeLink> = vec![Link::Sa(SomeSanitizer), Link::Sa(SomeSanitizer)];

    let result = execute_links(links, data(" \t neither a nor b ends this \n"));

    assert_eq!(result.unwrap(), data("neither a nor b ends this"));
}

#[test]
fn validators_alone_leave_the_value() {
    let links: Vec<SomeLink> = vec![
        Link::Va(SomeCheck::One, SomeError::Error1),
        Link::Va(SomeCheck::Two, SomeError::Error2),
    ];

    let result = execute_links(links, data("a  b"));

    assert_eq!(result.unwrap(), data("a  b"));
}

#[test]
fn validator_sees_the_value_as_sanitized_so_far() {
    let links: Vec<SomeLink> = vec![
        Link::Va(SomeCheck::Two, SomeError::Error2),
        Link::Sa(SomeSanitizer),
        Link::Va(SomeCheck::One, SomeError::Error1),
    ];

    let result = execute_links(links, data("  a b  "));

    assert_eq!(result.unwrap_err(), SomeError::Error2);
}

#[test]
fn first_rejection_wins_over_later_ones() {
    let links: Vec<SomeLink> = vec![
        Link::Sa(SomeSanitizer),
        Link::Va(SomeCheck::Two, SomeError::Error2),
        Link::Va(SomeCheck::One, SomeError::Error1),
    ];

    let result = execute_links(links, data("  b a  "));

    assert_eq!(result.unwrap_err(), SomeError::Error2);
}

#[test]
fn nothing_runs_after_a_rejection() {
    let stopped: Vec<SomeLink> = vec![
        Link::Va(SomeCheck::One, SomeError::Error1),
        Link::Sa(SomeSanitizer),
    ];
    let shorter: Vec<SomeLink> = vec![Link::Va(SomeCheck::One, SomeError::Error1)];

    assert_eq!(execute_links(stopped, data(" a")).unwrap_err(), SomeError::Error1);
    assert_eq!(execute_links(shorter, data(" a")).unwrap_err(), SomeError::Error1);
}

#[test]
fn bound_error_is_the_one_returned() {
    let links: Vec<SomeLink> = vec![Link::Va(SomeCheck::One, SomeError::Error2)];

    let result = execute_links(links, data("b"));

    assert_eq!(result.unwrap_err(), SomeError::Error2);
}

#[test]
fn rerun_on_own_output_changes_nothing() {
    let first = execute_links(SomeDataValidator::chain(), data("\n a nice string b \t")).unwrap();
    assert_eq!(first, data("a nice string b"));

    let second = execute_links(SomeDataValidator::chain(), first).unwrap();

    assert_eq!(second, data("a nice string b"));
}

#[test]
fn sanitization_one_trims_both_ends() {
    assert_eq!(sanitization_one(&data("  a b  ")), data("a b"));
    assert_eq!(sanitization_one(&data("\t\r\nx")), data("x"));
    assert_eq!(sanitization_one(&data("x\u{3000}\u{a0}")), data("x"));
    assert_eq!(sanitization_one(&data("   ")), data(""));
    assert_eq!(sanitization_one(&data("")), data(""));
    assert_eq!(sanitization_one(&data("a  b")), data("a  b"));
}

#[test]
fn validation_one_wants_a_leading_a() {
    assert!(validation_one(&data("a")));
    assert!(validation_one(&data("ab")));
    assert!(!validation_one(&data("ba")));
    assert!(!validation_one(&data(" a")));
    assert!(!validation_one(&data("A")));
    assert!(!validation_one(&data("")));
}

#[test]
fn validation_two_wants_a_trailing_b() {
    assert!(validation_two(&data("b")));
    assert!(validation_two(&data("ab")));
    assert!(!validation_two(&data("ba")));
    assert!(!validation_two(&data("b ")));
    assert!(!validation_two(&data("B")));
    assert!(!validation_two(&data("")));
}
