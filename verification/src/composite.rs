//! Executors over a record, built from chains that each own one field.

use vstd::prelude::*;
use vstd::std_specs::convert::FromSpec;
use core::marker::PhantomData;
use crate::chain::ChainExec;

verus! {

/// An aggregate error that can hold every error of type `E`.
///
/// The conversion is total and loses nothing: different errors of a chain
/// give different aggregate errors.
pub trait Aggregates<E>: From<E> {
    proof fn conversion_is_specified()
        ensures
            <Self as FromSpec<E>>::obeys_from_spec(),
    ;

    proof fn conversion_is_lossless(a: E, b: E)
        requires
            <Self as FromSpec<E>>::from_spec(a) == <Self as FromSpec<E>>::from_spec(b),
        ensures
            a == b,
    ;
}

/// Binds the chain of a field to the record that holds the field.
pub trait FieldAdapter {
    type Composite: View;

    /// The executor that processes the field.
    type Exec: ChainExec;

    /// The view of the field, read from a record whose view is `composite`.
    spec fn extracted(composite: <Self::Composite as View>::V) -> <<Self::Exec as ChainExec>::Type as View>::V;

    /// The view of the record after `field` was written into it.
    spec fn combined(
        composite: <Self::Composite as View>::V,
        field: <<Self::Exec as ChainExec>::Type as View>::V,
    ) -> <Self::Composite as View>::V;

    fn extract(composite: &Self::Composite) -> (field: <Self::Exec as ChainExec>::Type)
        ensures
            field@ == Self::extracted(composite@),
    ;

    fn combine(composite: &mut Self::Composite, field: <Self::Exec as ChainExec>::Type)
        ensures
            final(composite)@ == Self::combined(old(composite)@, field@),
    ;

    /// Writing back what was read changes nothing.
    proof fn round_trip(composite: <Self::Composite as View>::V)
        ensures
            Self::combined(composite, Self::extracted(composite)) == composite,
    ;

    /// What was written is what is read afterwards.
    proof fn reads_back(
        composite: <Self::Composite as View>::V,
        field: <<Self::Exec as ChainExec>::Type as View>::V,
    )
        ensures
            Self::extracted(Self::combined(composite, field)) == field,
    ;
}

/// The executor over a record that processes the one field of adapter `A`
/// and reports a failure of the field's chain as an aggregate error `G`.
///
/// It is a declaration: no value of it is ever made. That `G` can hold the
/// errors of the field's chain is demanded where the executor is named, so
/// an executor with an error type that cannot hold them does not exist.
pub struct FieldExec<A, G>(PhantomData<A>, PhantomData<G>);

impl<A: FieldAdapter, G: Aggregates<<A::Exec as ChainExec>::Error>> ChainExec for FieldExec<A, G> {
    type Type = A::Composite;

    type Error = G;

    open spec fn outcome(input: <A::Composite as View>::V) -> Result<<A::Composite as View>::V, G> {
        match <A::Exec as ChainExec>::outcome(A::extracted(input)) {
            Ok(field) => Ok(A::combined(input, field)),
            Err(error) => Err(<G as FromSpec<<A::Exec as ChainExec>::Error>>::from_spec(error)),
        }
    }

    fn execute(input: A::Composite) -> (result: Result<A::Composite, G>) {
        let mut data = input;
        let field = A::extract(&data);
        match <A::Exec as ChainExec>::execute(field) {
            Ok(processed) => {
                A::combine(&mut data, processed);
                Ok(data)
            },
            Err(error) => {
                proof {
                    G::conversion_is_specified();
                }
                Err(G::from(error))
            },
        }
    }
}

/// The executor that runs `X` and then, on what `X` returned, `Y`. A failure
/// of `X` is final: `Y` does not run.
///
/// Like `FieldExec` it is a declaration. An executor over any number of
/// fields is a nest of these, and the fields run in the order in which they
/// are written.
pub struct Then<X, Y>(PhantomData<X>, PhantomData<Y>);

impl<X: ChainExec, Y: ChainExec<Type = X::Type, Error = X::Error>> ChainExec for Then<X, Y> {
    type Type = X::Type;

    type Error = X::Error;

    open spec fn outcome(input: <X::Type as View>::V) -> Result<<X::Type as View>::V, X::Error> {
        match X::outcome(input) {
            Ok(between) => Y::outcome(between),
            Err(error) => Err(error),
        }
    }

    fn execute(input: X::Type) -> (result: Result<X::Type, X::Error>) {
        match X::execute(input) {
            Ok(between) => Y::execute(between),
            Err(error) => Err(error),
        }
    }
}

/// When the first of two executors fails, its error is the result, whatever
/// the second would have returned.
pub proof fn lemma_first_failure_wins<X: ChainExec, Y: ChainExec<Type = X::Type, Error = X::Error>>(
    input: <X::Type as View>::V,
)
    requires
        X::outcome(input) is Err,
    ensures
        Then::<X, Y>::outcome(input) == X::outcome(input),
{
}

/// The second of two executors is given what the first returned, and
/// decides the result from there.
pub proof fn lemma_second_runs_on_first_result<
    X: ChainExec,
    Y: ChainExec<Type = X::Type, Error = X::Error>,
>(input: <X::Type as View>::V)
    requires
        X::outcome(input) is Ok,
    ensures
        Then::<X, Y>::outcome(input) == Y::outcome(X::outcome(input)->Ok_0),
{
}

/// Of two fields registered one after the other whose chains both fail on
/// an input, the one registered first is reported: the result is the
/// aggregate error made from the error of its chain.
pub proof fn lemma_first_field_is_reported<
    A: FieldAdapter,
    B: FieldAdapter<Composite = A::Composite>,
    G: Aggregates<<A::Exec as ChainExec>::Error> + Aggregates<<B::Exec as ChainExec>::Error>,
>(input: <A::Composite as View>::V)
    requires
        <A::Exec as ChainExec>::outcome(A::extracted(input)) is Err,
        <B::Exec as ChainExec>::outcome(B::extracted(input)) is Err,
    ensures
        Then::<FieldExec<A, G>, FieldExec<B, G>>::outcome(input) == Err::<
            <A::Composite as View>::V,
            G,
        >(
            <G as FromSpec<<A::Exec as ChainExec>::Error>>::from_spec(
                <A::Exec as ChainExec>::outcome(A::extracted(input))->Err_0,
            ),
        ),
{
}

/// After a successful run of a field's executor, the field of the record
/// holds what the field's chain returned.
pub proof fn lemma_field_holds_chain_result<
    A: FieldAdapter,
    G: Aggregates<<A::Exec as ChainExec>::Error>,
>(input: <A::Composite as View>::V)
    requires
        FieldExec::<A, G>::outcome(input) is Ok,
    ensures
        <A::Exec as ChainExec>::outcome(A::extracted(input)) == Ok::<
            <<A::Exec as ChainExec>::Type as View>::V,
            <A::Exec as ChainExec>::Error,
        >(A::extracted(FieldExec::<A, G>::outcome(input)->Ok_0)),
{
    let field = <A::Exec as ChainExec>::outcome(A::extracted(input))->Ok_0;
    A::reads_back(input, field);
}

/// A record whose field the field's chain returns unchanged is itself
/// returned unchanged by the field's executor.
pub proof fn lemma_settled_field_keeps_record<
    A: FieldAdapter,
    G: Aggregates<<A::Exec as ChainExec>::Error>,
>(composite: <A::Composite as View>::V)
    requires
        <A::Exec as ChainExec>::outcome(A::extracted(composite)) == Ok::<
            <<A::Exec as ChainExec>::Type as View>::V,
            <A::Exec as ChainExec>::Error,
        >(A::extracted(composite)),
    ensures
        FieldExec::<A, G>::outcome(composite) == Ok::<<A::Composite as View>::V, G>(composite),
{
    A::round_trip(composite);
}

/// A successful run of `X` on `input` returns a record of which `part` is
/// what it was in the input.
pub open spec fn kept_on<X: ChainExec, P>(
    part: spec_fn(<X::Type as View>::V) -> P,
    input: <X::Type as View>::V,
) -> bool {
    match X::outcome(input) {
        Ok(out) => part(out) == part(input),
        Err(_) => true,
    }
}

/// Every successful run of `X` leaves `part` of the record as it was.
pub open spec fn keeps<X: ChainExec, P>(part: spec_fn(<X::Type as View>::V) -> P) -> bool {
    forall|input: <X::Type as View>::V| #[trigger] kept_on::<X, P>(part, input)
}

/// Writing the field of adapter `A` never changes `part` of the record.
pub open spec fn untouched_by<A: FieldAdapter, P>(
    part: spec_fn(<A::Composite as View>::V) -> P,
) -> bool {
    forall|composite: <A::Composite as View>::V, field: <<A::Exec as ChainExec>::Type as View>::V|
        part(#[trigger] A::combined(composite, field)) == part(composite)
}

/// The executor of one field leaves every part of the record that the
/// field's adapter does not write as it was.
pub proof fn lemma_field_keeps_the_rest<
    A: FieldAdapter,
    G: Aggregates<<A::Exec as ChainExec>::Error>,
    P,
>(part: spec_fn(<A::Composite as View>::V) -> P)
    requires
        untouched_by::<A, P>(part),
    ensures
        keeps::<FieldExec<A, G>, P>(part),
{
    assert forall|input: <A::Composite as View>::V| #[trigger] kept_on::<FieldExec<A, G>, P>(
        part,
        input,
    ) by {
        match <A::Exec as ChainExec>::outcome(A::extracted(input)) {
            Ok(field) => {
                assert(part(A::combined(input, field)) == part(input));
            },
            Err(_) => {},
        }
    }
}

/// What two executors each leave as it was, their sequence leaves as it
/// was. So a part of the record that no registered field covers is, after
/// a successful run, what it was in the input.
pub proof fn lemma_sequence_keeps_the_rest<
    X: ChainExec,
    Y: ChainExec<Type = X::Type, Error = X::Error>,
    P,
>(part: spec_fn(<X::Type as View>::V) -> P)
    requires
        keeps::<X, P>(part),
        keeps::<Y, P>(part),
    ensures
        keeps::<Then<X, Y>, P>(part),
{
    assert forall|input: <X::Type as View>::V| #[trigger] kept_on::<Then<X, Y>, P>(
        part,
        input,
    ) by {
        assert(kept_on::<X, P>(part, input));
        match X::outcome(input) {
            Ok(between) => {
                assert(kept_on::<Y, P>(part, between));
            },
            Err(_) => {},
        }
    }
}

} // verus!
