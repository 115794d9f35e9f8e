//! A worked example: a chain over a text value, and a record with two text
//! fields that are each processed by that chain.

use vstd::prelude::*;
use vstd::std_specs::convert::FromSpecImpl;
use crate::chain::{Chain, ChainExec};
use crate::composite::{Aggregates, FieldAdapter, FieldExec, Then};
use crate::link::{run_links, Link, Sanitizer, Validator};
use crate::text::{ends_with, lemma_trim_idempotent, starts_with, trimmed};

verus! {

/// The errors of the sample chain, one for each of its validators.
#[derive(Debug, PartialEq, Eq)]
pub enum SomeError {
    Error1,
    Error2,
}

/// A text value. Its view is the text.
#[derive(Debug, PartialEq, Eq)]
pub struct SomeData(pub String);

impl View for SomeData {
    type V = Seq<char>;

    open spec fn view(&self) -> Seq<char> {
        self.0@
    }
}

/// Removes the whitespace at both ends of the text.
pub fn sanitization_one(input: &SomeData) -> (out: SomeData)
    ensures
        out@ == trimmed(input@),
{
    SomeData(input.0.as_str().trim().to_owned())
}

/// Whether the text begins with the letter `a`.
pub fn validation_one(input: &SomeData) -> (ok: bool)
    ensures
        ok == (input@.len() > 0 && input@[0] == 'a'),
{
    proof {
        reveal_strlit("a");
    }
    let found = starts_with(input.0.as_str(), "a");
    assert("a"@ =~= seq!['a']);
    assert(seq!['a'].is_prefix_of(input@) == (input@.len() > 0 && input@[0] == 'a')) by {
        if input@.len() > 0 && input@[0] == 'a' {
            assert(input@.subrange(0, 1) =~= seq!['a']);
        }
        if seq!['a'].is_prefix_of(input@) {
            assert(input@.subrange(0, 1)[0] == 'a');
        }
    }
    found
}

/// Whether the text ends with the letter `b`.
pub fn validation_two(input: &SomeData) -> (ok: bool)
    ensures
        ok == (input@.len() > 0 && input@.last() == 'b'),
{
    proof {
        reveal_strlit("b");
    }
    let found = ends_with(input.0.as_str(), "b");
    assert("b"@ =~= seq!['b']);
    assert(seq!['b'].is_suffix_of(input@) == (input@.len() > 0 && input@.last() == 'b')) by {
        let n = input@.len() as int;
        if input@.len() > 0 && input@.last() == 'b' {
            assert(input@.subrange(n - 1, n) =~= seq!['b']);
        }
        if seq!['b'].is_suffix_of(input@) {
            assert(input@.subrange(n - 1, n)[0] == 'b');
        }
    }
    found
}

/// The sanitizer of the sample chain: `sanitization_one`.
pub struct SomeSanitizer;

impl Sanitizer<SomeData> for SomeSanitizer {
    open spec fn sanitized(&self, value: Seq<char>) -> Seq<char> {
        trimmed(value)
    }

    fn sanitize(&self, value: &SomeData) -> (out: SomeData) {
        sanitization_one(value)
    }
}

/// The validators of the sample chain: `validation_one` and
/// `validation_two`.
pub enum SomeCheck {
    One,
    Two,
}

impl Validator<SomeData> for SomeCheck {
    open spec fn accepts(&self, value: Seq<char>) -> bool {
        match self {
            SomeCheck::One => value.len() > 0 && value[0] == 'a',
            SomeCheck::Two => value.len() > 0 && value.last() == 'b',
        }
    }

    fn validate(&self, value: &SomeData) -> (ok: bool) {
        match self {
            SomeCheck::One => validation_one(value),
            SomeCheck::Two => validation_two(value),
        }
    }
}

/// The sample chain: trim the text, then require a leading `a`, then a
/// trailing `b`.
pub struct SomeDataValidator;

impl Chain for SomeDataValidator {
    type Type = SomeData;

    type Error = SomeError;

    type Sanitizer = SomeSanitizer;

    type Validator = SomeCheck;

    open spec fn links() -> Seq<Link<SomeSanitizer, SomeCheck, SomeError>> {
        seq![
            Link::Sa(SomeSanitizer),
            Link::Va(SomeCheck::One, SomeError::Error1),
            Link::Va(SomeCheck::Two, SomeError::Error2),
        ]
    }

    fn chain() -> (links: Vec<Link<SomeSanitizer, SomeCheck, SomeError>>) {
        let links = vec![
            Link::Sa(SomeSanitizer),
            Link::Va(SomeCheck::One, SomeError::Error1),
            Link::Va(SomeCheck::Two, SomeError::Error2),
        ];
        assert(links@ =~= Self::links());
        links
    }
}

/// The aggregate error of the sample record.
#[derive(Debug, PartialEq, Eq)]
pub enum ToError {
    Error1(SomeError),
}

impl From<SomeError> for ToError {
    fn from(error: SomeError) -> (out: ToError) {
        ToError::Error1(error)
    }
}

impl FromSpecImpl<SomeError> for ToError {
    open spec fn obeys_from_spec() -> bool {
        true
    }

    open spec fn from_spec(error: SomeError) -> ToError {
        ToError::Error1(error)
    }
}

impl Aggregates<SomeError> for ToError {
    proof fn conversion_is_specified() {
    }

    proof fn conversion_is_lossless(a: SomeError, b: SomeError) {
    }
}

/// The sample record: two text fields.
#[derive(Debug, PartialEq, Eq)]
pub struct ToValidate {
    pub my_data: String,
    pub my_data2: String,
}

/// The view of the sample record: the texts of its two fields.
pub struct ToValidateView {
    pub my_data: Seq<char>,
    pub my_data2: Seq<char>,
}

impl View for ToValidate {
    type V = ToValidateView;

    open spec fn view(&self) -> ToValidateView {
        ToValidateView { my_data: self.my_data@, my_data2: self.my_data2@ }
    }
}

impl Default for ToValidate {
    fn default() -> (out: ToValidate)
        ensures
            out@.my_data == Seq::<char>::empty(),
            out@.my_data2 == Seq::<char>::empty(),
    {
        ToValidate { my_data: String::new(), my_data2: String::new() }
    }
}

/// The adapter of the first field of the sample record.
pub struct MyData;

impl FieldAdapter for MyData {
    type Composite = ToValidate;

    type Exec = SomeDataValidator;

    open spec fn extracted(composite: ToValidateView) -> Seq<char> {
        composite.my_data
    }

    open spec fn combined(composite: ToValidateView, field: Seq<char>) -> ToValidateView {
        ToValidateView { my_data: field, my_data2: composite.my_data2 }
    }

    fn extract(composite: &ToValidate) -> (field: SomeData) {
        SomeData(composite.my_data.clone())
    }

    fn combine(composite: &mut ToValidate, field: SomeData) {
        composite.my_data = field.0;
    }

    proof fn round_trip(composite: ToValidateView) {
    }

    proof fn reads_back(composite: ToValidateView, field: Seq<char>) {
    }
}

/// The adapter of the second field of the sample record.
pub struct MyData2;

impl FieldAdapter for MyData2 {
    type Composite = ToValidate;

    type Exec = SomeDataValidator;

    open spec fn extracted(composite: ToValidateView) -> Seq<char> {
        composite.my_data2
    }

    open spec fn combined(composite: ToValidateView, field: Seq<char>) -> ToValidateView {
        ToValidateView { my_data: composite.my_data, my_data2: field }
    }

    fn extract(composite: &ToValidate) -> (field: SomeData) {
        SomeData(composite.my_data2.clone())
    }

    fn combine(composite: &mut ToValidate, field: SomeData) {
        composite.my_data2 = field.0;
    }

    proof fn round_trip(composite: ToValidateView) {
    }

    proof fn reads_back(composite: ToValidateView, field: Seq<char>) {
    }
}

/// The executor over the sample record: the first field, then the second.
pub type MyValidator = Then<FieldExec<MyData, ToError>, FieldExec<MyData2, ToError>>;

/// What the sample chain returns for a text, spelled out: the trimmed text
/// if it begins with `a` and ends with `b`, else the error of the first of
/// the two demands that it fails.
pub open spec fn sample_outcome(text: Seq<char>) -> Result<Seq<char>, SomeError> {
    let clean = trimmed(text);
    if !(clean.len() > 0 && clean[0] == 'a') {
        Err(SomeError::Error1)
    } else if !(clean.last() == 'b') {
        Err(SomeError::Error2)
    } else {
        Ok(clean)
    }
}

/// The sample chain returns what `sample_outcome` says.
pub proof fn lemma_sample_chain_outcome(text: Seq<char>)
    ensures
        SomeDataValidator::outcome(text) == sample_outcome(text),
{
    let links = <SomeDataValidator as Chain>::links();
    let clean = trimmed(text);
    let checks = links.skip(1);
    let last = checks.skip(1);
    assert(last.skip(1).len() == 0);
    assert(run_links::<SomeData, SomeSanitizer, SomeCheck, SomeError>(last.skip(1), clean) == Ok::<
        Seq<char>,
        SomeError,
    >(clean));
    assert(run_links::<SomeData, SomeSanitizer, SomeCheck, SomeError>(last, clean) == if clean.len()
        > 0 && clean.last() == 'b' {
        Ok::<Seq<char>, SomeError>(clean)
    } else {
        Err::<Seq<char>, SomeError>(SomeError::Error2)
    });
    assert(run_links::<SomeData, SomeSanitizer, SomeCheck, SomeError>(checks, clean)
        == sample_outcome(text));
    assert(run_links::<SomeData, SomeSanitizer, SomeCheck, SomeError>(links, text)
        == sample_outcome(text));
}

/// Running the sample chain on what it returned returns the same again.
pub proof fn lemma_sample_chain_rerun(text: Seq<char>)
    requires
        SomeDataValidator::outcome(text) is Ok,
    ensures
        SomeDataValidator::outcome(SomeDataValidator::outcome(text)->Ok_0)
            == SomeDataValidator::outcome(text),
{
    lemma_sample_chain_outcome(text);
    lemma_sample_chain_outcome(trimmed(text));
    lemma_trim_idempotent(text);
}

/// Running the sample record executor on what it returned returns the
/// same again.
pub proof fn lemma_sample_record_rerun(record: ToValidateView)
    requires
        MyValidator::outcome(record) is Ok,
    ensures
        MyValidator::outcome(MyValidator::outcome(record)->Ok_0) == MyValidator::outcome(record),
{
    lemma_sample_chain_rerun(record.my_data);
    lemma_sample_chain_rerun(record.my_data2);
}

} // verus!
