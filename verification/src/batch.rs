use crate::document::{Envelope, RawDocument};
use crate::error::{FirestoreError, FirestoreResult};
use crate::path::{last_path_segment, last_segment};
use vstd::prelude::*;

verus! {

/// One request for many documents.
#[derive(Debug, Clone, PartialEq, Eq)]
pub struct BatchRequest {
    /// The full path of every document asked for, in the caller's order.
    pub documents: Vec<String>,
    /// The fields to return; `None` asks for whole documents.
    pub return_only_fields: Option<Vec<String>>,
}

/// An element of a batch result as contracts see it: the identifier by its
/// characters, beside the value found under it, if any.
pub type Correlated<V> = (Seq<char>, Option<V>);

/// Where the first unresolved path stands, or the length if there is none.
pub open spec fn first_failure<T>(resolved: Seq<FirestoreResult<T>>) -> int
    decreases resolved.len(),
{
    if resolved.len() == 0 || resolved.first() is Err {
        0
    } else {
        1 + first_failure(resolved.drop_first())
    }
}

/// How `first_failure` sits in its sequence: everything before it is
/// resolved, and it is a failure unless it is the length.
pub proof fn lemma_first_failure<T>(resolved: Seq<FirestoreResult<T>>)
    ensures
        0 <= first_failure(resolved) <= resolved.len(),
        forall|i: int| 0 <= i < first_failure(resolved) ==> (#[trigger] resolved[i]) is Ok,
        first_failure(resolved) < resolved.len() ==> resolved[first_failure(resolved)] is Err,
    decreases resolved.len(),
{
    if resolved.len() == 0 || resolved.first() is Err {
    } else {
        let rest = resolved.drop_first();
        lemma_first_failure(rest);
        assert forall|i: int| 0 <= i < first_failure(resolved) implies (
        #[trigger] resolved[i]) is Ok by {
            if i > 0 {
                assert(resolved[i] == rest[i - 1]);
            }
        }
    }
}

/// Opens a batch fetch. Every identifier must have been resolved to a
/// path: the first that was not ends the call before anything is sent.
pub fn begin_batch(
    resolved: Vec<FirestoreResult<String>>,
    return_only_fields: Option<Vec<String>>,
) -> (request: FirestoreResult<BatchRequest>)
    ensures
        forall|i: int| 0 <= i < first_failure(resolved@) ==> (#[trigger] resolved@[i]) is Ok,
        match request {
            Ok(batch) => {
                &&& first_failure(resolved@) == resolved@.len()
                &&& batch.documents@ == resolved@.map_values(
                    |r: FirestoreResult<String>| r->Ok_0,
                )
                &&& batch.return_only_fields == return_only_fields
            },
            Err(error) => {
                &&& first_failure(resolved@) < resolved@.len()
                &&& resolved@[first_failure(resolved@)] == Err::<String, FirestoreError>(error)
            },
        },
{
    let ghost all = resolved@;
    let mut documents: Vec<String> = Vec::new();
    let mut failure: Option<FirestoreError> = None;
    proof {
        lemma_first_failure(all);
        assert(all.skip(0) =~= all);
    }
    for r in it: resolved.into_iter()
        invariant
            it.seq() == all,
            failure is None ==> {
                &&& documents@ == all.take(it.index() as int).map_values(
                    |r: FirestoreResult<String>| r->Ok_0,
                )
                &&& first_failure(all) == it.index() + first_failure(all.skip(it.index() as int))
            },
            failure is Some ==> {
                &&& first_failure(all) < all.len()
                &&& all[first_failure(all)] == Err::<String, FirestoreError>(failure->Some_0)
            },
    {
        if failure.is_none() {
            let ghost rest = all.skip(it.index() as int);
            assert(rest.first() == r);
            assert(rest.drop_first() =~= all.skip(it.index() + 1));
            match r {
                Ok(path) => {
                    documents.push(path);
                    assert(documents@ =~= all.take(it.index() + 1).map_values(
                        |r: FirestoreResult<String>| r->Ok_0,
                    ));
                },
                Err(error) => {
                    failure = Some(error);
                },
            }
        }
    }
    match failure {
        Some(error) => Err(error),
        None => {
            assert(all.take(all.len() as int) =~= all);
            assert(first_failure(all.skip(all.len() as int)) == 0);
            Ok(BatchRequest { documents, return_only_fields })
        },
    }
}

/// What one item of the response stream becomes: a found document and a
/// missing one are each paired with the last segment of their full path, a
/// failure of the channel is passed on as it is, and an answer without a
/// result gives nothing.
pub open spec fn correlated<B>(item: FirestoreResult<Option<Envelope<B>>>) -> Option<
    FirestoreResult<Correlated<RawDocument<B>>>,
> {
    match item {
        Ok(Some(Envelope::Found(document))) => Some(
            Ok((last_segment(document.name@), Some(document))),
        ),
        Ok(Some(Envelope::Missing(full_name))) => Some(Ok((last_segment(full_name@), None))),
        Ok(None) => None,
        Err(error) => Some(Err(error)),
    }
}

/// An executable pair as contracts see it.
pub open spec fn pair_view<V>(pair: (String, Option<V>)) -> Correlated<V> {
    (pair.0@, pair.1)
}

/// An executable element of an error-preserving result as contracts see it.
pub open spec fn element_view<V>(element: FirestoreResult<(String, Option<V>)>) -> FirestoreResult<
    Correlated<V>,
> {
    match element {
        Ok(pair) => Ok(pair_view(pair)),
        Err(error) => Err(error),
    }
}

/// An optional executable element as contracts see it.
pub open spec fn optional_view<V>(
    element: Option<FirestoreResult<(String, Option<V>)>>,
) -> Option<FirestoreResult<Correlated<V>>> {
    match element {
        Some(e) => Some(element_view(e)),
        None => None,
    }
}

/// Re-attaches identity to one item of the response stream.
pub fn correlate<B>(item: FirestoreResult<Option<Envelope<B>>>) -> (element: Option<
    FirestoreResult<(String, Option<RawDocument<B>>)>,
>)
    ensures
        optional_view(element) == correlated(item),
{
    match item {
        Ok(Some(Envelope::Found(document))) => {
            let id = last_path_segment(document.name.as_str());
            Some(Ok((id, Some(document))))
        },
        Ok(Some(Envelope::Missing(full_name))) => {
            let id = last_path_segment(full_name.as_str());
            Some(Ok((id, None)))
        },
        Ok(None) => None,
        Err(error) => Some(Err(error)),
    }
}

/// One item of the response stream: a failure of the channel, an answer
/// that carries no result, or an answer about one document.
pub type StreamItem<B> = FirestoreResult<Option<Envelope<B>>>;

/// `correlated` as a function value, to be applied along a stream.
pub open spec fn correlator<B>() -> spec_fn(StreamItem<B>) -> Option<
    FirestoreResult<Correlated<RawDocument<B>>>,
> {
    |item: StreamItem<B>| correlated(item)
}

/// `element_view` as a function value.
pub open spec fn element_viewer<V>() -> spec_fn(FirestoreResult<(String, Option<V>)>) -> FirestoreResult<
    Correlated<V>,
> {
    |element: FirestoreResult<(String, Option<V>)>| element_view(element)
}

/// Correlates a response stream that has been received in full. The
/// elements come in the order in which the items arrived, at most one for
/// each item.
pub fn correlate_all<B>(items: Vec<StreamItem<B>>) -> (elements: Vec<
    FirestoreResult<(String, Option<RawDocument<B>>)>,
>)
    ensures
        elements@.map_values(element_viewer()) == items@.filter_map(correlator()),
{
    let ghost all = items@;
    let mut elements: Vec<FirestoreResult<(String, Option<RawDocument<B>>)>> = Vec::new();
    proof {
        assert(all.take(0).filter_map(correlator::<B>()) =~= Seq::empty());
        assert(elements@.map_values(element_viewer::<RawDocument<B>>()) =~= Seq::empty());
    }
    for item in it: items.into_iter()
        invariant
            it.seq() == all,
            elements@.map_values(element_viewer()) == all.take(it.index() as int).filter_map(
                correlator(),
            ),
    {
        let ghost before = elements@;
        proof {
            all.lemma_filter_map_take_succ(correlator(), it.index() as int);
        }
        match correlate(item) {
            Some(element) => {
                elements.push(element);
                assert(elements@.map_values(element_viewer()) =~= before.map_values(
                    element_viewer(),
                ) + seq![element_view(element)]);
            },
            None => {
                assert(all.take(it.index() + 1).filter_map(correlator()) =~= all.take(
                    it.index() as int,
                ).filter_map(correlator()));
            },
        }
    }
    assert(all.take(all.len() as int) =~= all);
    elements
}

} // verus!
