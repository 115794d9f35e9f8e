//! The links of a chain and the mathematical model of running them.

use vstd::prelude::*;

verus! {

/// A transformation of a value that cannot fail.
///
/// The model is a total function on views, so a sanitizer is pure: what it
/// returns depends on the value it is given and on nothing else.
pub trait Sanitizer<T: View> {
    /// The view of the sanitized value, for a value whose view is `value`.
    spec fn sanitized(&self, value: T::V) -> T::V;

    fn sanitize(&self, value: &T) -> (out: T)
        ensures
            out@ == self.sanitized(value@),
    ;
}

/// A predicate on a value.
pub trait Validator<T: View> {
    /// Whether a value whose view is `value` is accepted.
    spec fn accepts(&self, value: T::V) -> bool;

    fn validate(&self, value: &T) -> (ok: bool)
        ensures
            ok == self.accepts(value@),
    ;
}

/// One step of a chain: a sanitizer, or a validator together with the error
/// that is reported when it rejects the value.
pub enum Link<S, V, E> {
    Sa(S),
    Va(V, E),
}

/// The view of an execution result: the view of the value on success, the
/// error itself on failure.
pub open spec fn result_view<T: View, E>(result: Result<T, E>) -> Result<T::V, E> {
    match result {
        Ok(value) => Ok(value@),
        Err(error) => Err(error),
    }
}

/// The result of running `links` in order on a value whose view is `value`.
///
/// A sanitizer replaces the running value. A validator that accepts leaves it
/// as it is; one that rejects ends the run with its error, and nothing after
/// it is looked at.
pub open spec fn run_links<T: View, S: Sanitizer<T>, V: Validator<T>, E>(
    links: Seq<Link<S, V, E>>,
    value: T::V,
) -> Result<T::V, E>
    decreases links.len(),
{
    if links.len() == 0 {
        Ok(value)
    } else {
        match links[0] {
            Link::Sa(s) => run_links::<T, S, V, E>(links.skip(1), s.sanitized(value)),
            Link::Va(v, e) => if v.accepts(value) {
                run_links::<T, S, V, E>(links.skip(1), value)
            } else {
                Err(e)
            },
        }
    }
}

/// Runs `links` in order on `input`, stopping at the first validator that
/// rejects the running value.
pub fn execute_links<T: View, S: Sanitizer<T>, V: Validator<T>, E>(
    links: Vec<Link<S, V, E>>,
    input: T,
) -> (result: Result<T, E>)
    ensures
        result_view(result) == run_links::<T, S, V, E>(links@, input@),
{
    let mut data = input;
    let ghost all = links@;
    assert(all.skip(0) =~= all);
    for link in it: links
        invariant
            it.seq() == all,
            run_links::<T, S, V, E>(all, input@) == run_links::<T, S, V, E>(
                all.skip(it.index() as int),
                data@,
            ),
    {
        assert(all.skip(it.index() as int).skip(1) =~= all.skip(it.index() + 1));
        match link {
            Link::Sa(sanitizer) => {
                data = sanitizer.sanitize(&data);
            },
            Link::Va(validator, error) => {
                if !validator.validate(&data) {
                    return Err(error);
                }
            },
        }
    }
    Ok(data)
}

/// The value after the sanitizers among `links` were applied in order,
/// whatever the validators among them say.
pub open spec fn sanitize_all<T: View, S: Sanitizer<T>, V: Validator<T>, E>(
    links: Seq<Link<S, V, E>>,
    value: T::V,
) -> T::V
    decreases links.len(),
{
    if links.len() == 0 {
        value
    } else {
        match links[0] {
            Link::Sa(s) => sanitize_all::<T, S, V, E>(links.skip(1), s.sanitized(value)),
            Link::Va(_, _) => sanitize_all::<T, S, V, E>(links.skip(1), value),
        }
    }
}

/// The running value that link `k` is given, if no validator before it
/// rejects: the input with the sanitizers before `k` applied.
pub open spec fn value_before<T: View, S: Sanitizer<T>, V: Validator<T>, E>(
    links: Seq<Link<S, V, E>>,
    k: int,
    value: T::V,
) -> T::V {
    sanitize_all::<T, S, V, E>(links.take(k), value)
}

/// Link `k` is a validator that rejects the running value it is given.
pub open spec fn rejects_at<T: View, S: Sanitizer<T>, V: Validator<T>, E>(
    links: Seq<Link<S, V, E>>,
    k: int,
    value: T::V,
) -> bool {
    &&& 0 <= k < links.len()
    &&& match links[k] {
        Link::Sa(_) => false,
        Link::Va(v, _) => !v.accepts(value_before::<T, S, V, E>(links, k, value)),
    }
}

/// A run in which no validator rejects succeeds, and returns the input with
/// all sanitizers applied in order.
pub proof fn lemma_no_rejection_succeeds<T: View, S: Sanitizer<T>, V: Validator<T>, E>(
    links: Seq<Link<S, V, E>>,
    value: T::V,
)
    requires
        forall|j: int| 0 <= j < links.len() ==> !rejects_at::<T, S, V, E>(links, j, value),
    ensures
        run_links::<T, S, V, E>(links, value) == Ok::<T::V, E>(
            sanitize_all::<T, S, V, E>(links, value),
        ),
    decreases links.len(),
{
    if links.len() > 0 {
        let rest = links.skip(1);
        assert(!rejects_at::<T, S, V, E>(links, 0, value));
        assert(links.take(0) =~= Seq::empty());
        let next = match links[0] {
            Link::Sa(s) => s.sanitized(value),
            Link::Va(_, _) => value,
        };
        assert forall|j: int| 0 <= j < rest.len() implies !rejects_at::<T, S, V, E>(
            rest,
            j,
            next,
        ) by {
            assert(!rejects_at::<T, S, V, E>(links, j + 1, value));
            assert(links.take(j + 1).skip(1) =~= rest.take(j));
        }
        lemma_no_rejection_succeeds::<T, S, V, E>(rest, next);
    }
}

/// A chain without validators always succeeds, and returns the input with
/// all sanitizers applied in order.
pub proof fn lemma_sanitizers_only<T: View, S: Sanitizer<T>, V: Validator<T>, E>(
    links: Seq<Link<S, V, E>>,
    value: T::V,
)
    requires
        forall|j: int| 0 <= j < links.len() ==> links[j] is Sa,
    ensures
        run_links::<T, S, V, E>(links, value) == Ok::<T::V, E>(
            sanitize_all::<T, S, V, E>(links, value),
        ),
{
    lemma_no_rejection_succeeds::<T, S, V, E>(links, value);
}

/// The first validator that rejects its running value decides the run: the
/// result is the error bound to it.
pub proof fn lemma_first_rejection_decides<T: View, S: Sanitizer<T>, V: Validator<T>, E>(
    links: Seq<Link<S, V, E>>,
    k: int,
    value: T::V,
)
    requires
        rejects_at::<T, S, V, E>(links, k, value),
        forall|j: int| 0 <= j < k ==> !rejects_at::<T, S, V, E>(links, j, value),
    ensures
        run_links::<T, S, V, E>(links, value) == Err::<T::V, E>(links[k]->Va_1),
    decreases links.len(),
{
    assert(links.take(0) =~= Seq::empty());
    if k > 0 {
        let rest = links.skip(1);
        assert(!rejects_at::<T, S, V, E>(links, 0, value));
        let next = match links[0] {
            Link::Sa(s) => s.sanitized(value),
            Link::Va(_, _) => value,
        };
        assert forall|j: int| 0 <= j < k implies rejects_at::<T, S, V, E>(rest, j, next)
            == rejects_at::<T, S, V, E>(links, j + 1, value) by {
            assert(links.take(j + 1).skip(1) =~= rest.take(j));
        }
        lemma_first_rejection_decides::<T, S, V, E>(rest, k - 1, next);
    }
}

/// Nothing that stands after the first rejecting validator changes the
/// result: with any other links in their place the run ends in the same
/// error.
pub proof fn lemma_later_links_ignored<T: View, S: Sanitizer<T>, V: Validator<T>, E>(
    links: Seq<Link<S, V, E>>,
    k: int,
    value: T::V,
    later: Seq<Link<S, V, E>>,
)
    requires
        rejects_at::<T, S, V, E>(links, k, value),
        forall|j: int| 0 <= j < k ==> !rejects_at::<T, S, V, E>(links, j, value),
    ensures
        run_links::<T, S, V, E>(links.take(k + 1) + later, value) == run_links::<T, S, V, E>(
            links,
            value,
        ),
{
    let other = links.take(k + 1) + later;
    assert forall|j: int| 0 <= j <= k implies rejects_at::<T, S, V, E>(other, j, value)
        == rejects_at::<T, S, V, E>(links, j, value) by {
        assert(other.take(j) =~= links.take(j));
    }
    lemma_first_rejection_decides::<T, S, V, E>(links, k, value);
    lemma_first_rejection_decides::<T, S, V, E>(other, k, value);
}

/// A value that every sanitizer of the chain leaves as it is and every
/// validator of the chain accepts is returned unchanged.
pub proof fn lemma_settled_value_is_kept<T: View, S: Sanitizer<T>, V: Validator<T>, E>(
    links: Seq<Link<S, V, E>>,
    value: T::V,
)
    requires
        forall|j: int|
            0 <= j < links.len() ==> match #[trigger] links[j] {
                Link::Sa(s) => s.sanitized(value) == value,
                Link::Va(v, _) => v.accepts(value),
            },
    ensures
        run_links::<T, S, V, E>(links, value) == Ok::<T::V, E>(value),
    decreases links.len(),
{
    if links.len() > 0 {
        let rest = links.skip(1);
        let first = links[0];
        assert forall|j: int| 0 <= j < rest.len() implies match #[trigger] rest[j] {
            Link::Sa(s) => s.sanitized(value) == value,
            Link::Va(v, _) => v.accepts(value),
        } by {
            let shifted = links[j + 1];
        }
        lemma_settled_value_is_kept::<T, S, V, E>(rest, value);
    }
}

} // verus!
