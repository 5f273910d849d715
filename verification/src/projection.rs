use crate::error::{FirestoreError, FirestoreResult};
use vstd::prelude::*;

verus! {

/// What the error-suppressing view keeps of an element: a pair as it is,
/// nothing of a failure.
pub open spec fn surfaced<P>(element: FirestoreResult<P>) -> Option<P> {
    match element {
        Ok(pair) => Some(pair),
        Err(_) => None,
    }
}

/// `surfaced` as a function value, to be applied along a stream.
pub open spec fn surfacer<P>() -> spec_fn(FirestoreResult<P>) -> Option<P> {
    |element: FirestoreResult<P>| surfaced(element)
}

/// What an element becomes once the document in it has been decoded: a
/// decoded object takes the document's place, a failed decode becomes the
/// element's failure, and a missing document or a failure stays as it was.
pub open spec fn typed<I, T>(element: FirestoreResult<(I, Option<FirestoreResult<T>>)>) -> FirestoreResult<
    (I, Option<T>),
> {
    match element {
        Ok((id, Some(Ok(object)))) => Ok((id, Some(object))),
        Ok((_, Some(Err(error)))) => Err(error),
        Ok((id, None)) => Ok((id, None)),
        Err(error) => Err(error),
    }
}

/// `typed` as a function value.
pub open spec fn typer<I, T>() -> spec_fn(FirestoreResult<(I, Option<FirestoreResult<T>>)>) -> FirestoreResult<
    (I, Option<T>),
> {
    |element: FirestoreResult<(I, Option<FirestoreResult<T>>)>| typed(element)
}

/// What the error-suppressing view keeps of a pair once the document in it
/// has been decoded: nothing where the decode failed.
pub open spec fn typed_surfaced<I, T>(pair: (I, Option<FirestoreResult<T>>)) -> Option<
    (I, Option<T>),
> {
    surfaced(typed(Ok::<(I, Option<FirestoreResult<T>>), FirestoreError>(pair)))
}

/// `typed_surfaced` as a function value.
pub open spec fn typed_surfacer<I, T>() -> spec_fn((I, Option<FirestoreResult<T>>)) -> Option<
    (I, Option<T>),
> {
    |pair: (I, Option<FirestoreResult<T>>)| typed_surfaced(pair)
}

/// What a batch view does with an element that is a failure.
#[derive(Debug, Clone, Copy, PartialEq, Eq)]
pub enum ErrorPolicy {
    /// Failures stay in the result, each in its place.
    Surface,
    /// Failures are left out of the result.
    Suppress,
}

/// An element under a policy. Under `Surface` every element stays, decoded
/// or failed. Under `Suppress` only pairs stay, so that what is kept is
/// never a failure.
pub open spec fn projected<I, T>(
    policy: ErrorPolicy,
    element: FirestoreResult<(I, Option<FirestoreResult<T>>)>,
) -> Option<FirestoreResult<(I, Option<T>)>> {
    match policy {
        ErrorPolicy::Surface => Some(typed(element)),
        ErrorPolicy::Suppress => match surfaced(typed(element)) {
            Some(pair) => Some(Ok(pair)),
            None => None,
        },
    }
}

/// The single-object result of a fetch followed by a decode: the decode's
/// result where the fetch succeeded, the fetch's failure otherwise.
pub open spec fn decoded<T>(fetched: FirestoreResult<FirestoreResult<T>>) -> FirestoreResult<T> {
    match fetched {
        Ok(object) => object,
        Err(error) => Err(error),
    }
}

/// Folds "no such document" into an absent value; every other failure
/// stays a failure.
pub open spec fn folded<T>(result: FirestoreResult<T>) -> FirestoreResult<Option<T>> {
    match result {
        Ok(object) => Ok(Some(object)),
        Err(error) => if error.is_not_found() {
            Ok(None)
        } else {
            Err(error)
        },
    }
}

/// The error-suppressing view of one element.
pub fn suppress_error<P>(element: FirestoreResult<P>) -> (kept: Option<P>)
    ensures
        kept == surfaced(element),
{
    match element {
        Ok(pair) => Some(pair),
        Err(_) => None,
    }
}

/// The error-preserving typed view of one element whose document, if it
/// has one, has been handed to the decoder.
pub fn typed_element<T>(element: FirestoreResult<(String, Option<FirestoreResult<T>>)>) -> (out:
    FirestoreResult<(String, Option<T>)>)
    ensures
        out == typed(element),
{
    match element {
        Ok((id, Some(Ok(object)))) => Ok((id, Some(object))),
        Ok((_, Some(Err(error)))) => Err(error),
        Ok((id, None)) => Ok((id, None)),
        Err(error) => Err(error),
    }
}

/// The error-suppressing typed view of one pair whose document, if it has
/// one, has been handed to the decoder.
pub fn typed_pair<T>(pair: (String, Option<FirestoreResult<T>>)) -> (kept: Option<
    (String, Option<T>),
>)
    ensures
        kept == typed_surfaced(pair),
{
    suppress_error(typed_element(Ok(pair)))
}

/// The view of one element under `policy`. The document in the element, if
/// it has one, has been handed to the decoder; for a view of raw documents
/// the caller hands each document on as it is, inside `Ok`.
pub fn project_element<T>(
    policy: ErrorPolicy,
    element: FirestoreResult<(String, Option<FirestoreResult<T>>)>,
) -> (out: Option<FirestoreResult<(String, Option<T>)>>)
    ensures
        out == projected(policy, element),
        policy is Suppress ==> !(out matches Some(Err(_))),
        policy is Surface ==> out is Some,
{
    match policy {
        ErrorPolicy::Surface => Some(typed_element(element)),
        ErrorPolicy::Suppress => match suppress_error(typed_element(element)) {
            Some(pair) => Some(Ok(pair)),
            None => None,
        },
    }
}

/// The result of fetching one object: `fetched` is the fetch's failure, or
/// what the decoder made of the document.
pub fn decoded_object<T>(fetched: FirestoreResult<FirestoreResult<T>>) -> (object: FirestoreResult<T>)
    ensures
        object == decoded(fetched),
{
    match fetched {
        Ok(object) => object,
        Err(error) => Err(error),
    }
}

/// The result of fetching one object that may not exist.
pub fn fold_not_found<T>(result: FirestoreResult<T>) -> (object: FirestoreResult<Option<T>>)
    ensures
        object == folded(result),
{
    match result {
        Ok(object) => Ok(Some(object)),
        Err(error) => {
            if error.not_found() {
                Ok(None)
            } else {
                Err(error)
            }
        },
    }
}

/// The error-suppressing view of a whole result: the pairs, in order.
pub fn suppress_errors<P>(elements: Vec<FirestoreResult<P>>) -> (kept: Vec<P>)
    ensures
        kept@ == elements@.filter_map(surfacer()),
{
    let ghost all = elements@;
    let mut kept: Vec<P> = Vec::new();
    proof {
        assert(all.take(0).filter_map(surfacer::<P>()) =~= Seq::empty());
    }
    for element in it: elements.into_iter()
        invariant
            it.seq() == all,
            kept@ == all.take(it.index() as int).filter_map(surfacer()),
    {
        proof {
            all.lemma_filter_map_take_succ(surfacer(), it.index() as int);
        }
        match suppress_error(element) {
            Some(pair) => {
                kept.push(pair);
            },
            None => {},
        }
    }
    assert(all.take(all.len() as int) =~= all);
    kept
}

/// The error-preserving typed view of a whole result.
pub fn typed_elements<T>(
    elements: Vec<FirestoreResult<(String, Option<FirestoreResult<T>>)>>,
) -> (out: Vec<FirestoreResult<(String, Option<T>)>>)
    ensures
        out@ == elements@.map_values(typer()),
{
    let ghost all = elements@;
    let mut out: Vec<FirestoreResult<(String, Option<T>)>> = Vec::new();
    for element in it: elements.into_iter()
        invariant
            it.seq() == all,
            out@ == all.take(it.index() as int).map_values(typer()),
    {
        out.push(typed_element(element));
        assert(out@ =~= all.take(it.index() + 1).map_values(typer()));
    }
    assert(all.take(all.len() as int) =~= all);
    out
}

/// The error-suppressing typed view of a whole result.
pub fn typed_pairs<T>(pairs: Vec<(String, Option<FirestoreResult<T>>)>) -> (kept: Vec<
    (String, Option<T>),
>)
    ensures
        kept@ == pairs@.filter_map(typed_surfacer()),
{
    let ghost all = pairs@;
    let mut kept: Vec<(String, Option<T>)> = Vec::new();
    proof {
        assert(all.take(0).filter_map(typed_surfacer::<String, T>()) =~= Seq::empty());
    }
    for pair in it: pairs.into_iter()
        invariant
            it.seq() == all,
            kept@ == all.take(it.index() as int).filter_map(typed_surfacer()),
    {
        proof {
            all.lemma_filter_map_take_succ(typed_surfacer(), it.index() as int);
        }
        match typed_pair(pair) {
            Some(p) => {
                kept.push(p);
            },
            None => {},
        }
    }
    assert(all.take(all.len() as int) =~= all);
    kept
}

} // verus!
