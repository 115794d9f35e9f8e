//! Chains: a declared list of links for one value type, and its execution.

use vstd::prelude::*;
use crate::link::{execute_links, result_view, run_links, Link, Sanitizer, Validator};

verus! {

/// The declaration of a chain: the links that process values of `Type`, in
/// the order in which they run, with errors of type `Error`.
pub trait Chain {
    type Type: View;

    type Error;

    type Sanitizer: Sanitizer<Self::Type>;

    type Validator: Validator<Self::Type>;

    /// The declared links. The order is the order of execution.
    spec fn links() -> Seq<Link<Self::Sanitizer, Self::Validator, Self::Error>>;

    fn chain() -> (links: Vec<Link<Self::Sanitizer, Self::Validator, Self::Error>>)
        ensures
            links@ == Self::links(),
    ;
}

/// Something that takes a value and returns it processed, or one error.
pub trait ChainExec {
    type Type: View;

    type Error;

    /// What `execute` returns for an input whose view is `input`.
    spec fn outcome(input: <Self::Type as View>::V) -> Result<
        <Self::Type as View>::V,
        Self::Error,
    >;

    fn execute(input: Self::Type) -> (result: Result<Self::Type, Self::Error>)
        ensures
            result_view(result) == Self::outcome(input@),
    ;
}

impl<C: Chain> ChainExec for C {
    type Type = <C as Chain>::Type;

    type Error = <C as Chain>::Error;

    open spec fn outcome(input: <Self::Type as View>::V) -> Result<
        <Self::Type as View>::V,
        Self::Error,
    > {
        run_links::<<C as Chain>::Type, <C as Chain>::Sanitizer, <C as Chain>::Validator, <C as Chain>::Error>(
            <C as Chain>::links(),
            input,
        )
    }

    fn execute(input: Self::Type) -> (result: Result<Self::Type, Self::Error>) {
        execute_links(<C as Chain>::chain(), input)
    }
}

} // verus!
