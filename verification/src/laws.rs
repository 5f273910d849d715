use crate::batch::{correlated, correlator, Correlated, StreamItem};
use crate::document::{Envelope, RawDocument};
use crate::error::{FirestoreError, FirestoreResult};
use crate::path::{last_segment, lemma_last_segment_of_joined};
use crate::projection::{
    decoded,
    folded,
    surfaced,
    surfacer,
    typed,
    typed_surfaced,
    typed_surfacer,
};
use vstd::prelude::*;

verus! {

/// The identifier of an element, where it has one.
pub open spec fn element_id<V>(element: FirestoreResult<Correlated<V>>) -> Option<Seq<char>> {
    match element {
        Ok(pair) => Some(pair.0),
        Err(_) => None,
    }
}

/// The identifiers that a result holds, in its order.
pub open spec fn answered_ids<V>(elements: Seq<FirestoreResult<Correlated<V>>>) -> Seq<Seq<char>> {
    elements.filter_map(|element: FirestoreResult<Correlated<V>>| element_id(element))
}

/// An item that is an answer about one document.
pub open spec fn is_answer<B>(item: StreamItem<B>) -> bool {
    item matches Ok(Some(_))
}

/// The full path that an answer is about.
pub open spec fn answered_path<B>(item: StreamItem<B>) -> Seq<char> {
    match item {
        Ok(Some(envelope)) => envelope.full_name(),
        _ => Seq::empty(),
    }
}

/// Filtering a concatenation is concatenating what is filtered.
pub proof fn lemma_filter_map_concat<A, B>(front: Seq<A>, back: Seq<A>, f: spec_fn(A) -> Option<B>)
    ensures
        (front + back).filter_map(f) == front.filter_map(f) + back.filter_map(f),
    decreases back.len(),
{
    if back.len() == 0 {
        assert(front + back =~= front);
        assert(front.filter_map(f) + back.filter_map(f) =~= front.filter_map(f));
    } else {
        let whole = front + back;
        assert(whole.drop_last() =~= front + back.drop_last());
        assert(whole.last() == back.last());
        lemma_filter_map_concat(front, back.drop_last(), f);
        match f(back.last()) {
            Some(b) => {
                assert(whole.filter_map(f) =~= front.filter_map(f) + back.filter_map(f));
            },
            None => {},
        }
    }
}

/// Two sequences that hold the same items, each as often, still do so
/// after the same function was applied to every item.
pub proof fn lemma_map_keeps_multiset<A, B>(left: Seq<A>, right: Seq<A>, f: spec_fn(A) -> B)
    requires
        left.to_multiset() == right.to_multiset(),
    ensures
        left.map_values(f).to_multiset() == right.map_values(f).to_multiset(),
    decreases left.len(),
{
    broadcast use vstd::seq_lib::group_to_multiset_ensures;

    vstd::seq_lib::to_multiset_len(left);
    vstd::seq_lib::to_multiset_len(right);
    if left.len() == 0 {
        assert(left.map_values(f) =~= right.map_values(f));
    } else {
        let x = left.last();
        let front = left.drop_last();
        assert(front.push(x) =~= left);
        assert(left.to_multiset().count(x) > 0);
        assert(right.contains(x));
        let j = choose|j: int| 0 <= j < right.len() && right[j] == x;
        let others = right.remove(j);
        assert(front.to_multiset() =~= left.to_multiset().remove(x));
        assert(others.to_multiset() =~= right.to_multiset().remove(x));
        lemma_map_keeps_multiset(front, others, f);
        assert(left.map_values(f) =~= front.map_values(f).push(f(x)));
        assert(right.map_values(f) =~= others.map_values(f).insert(j, f(x)));
    }
}

/// Of a stream that holds nothing but answers, every item gives one
/// element, and the identifiers are the last segments of the answered
/// paths, in arrival order.
pub proof fn lemma_answers_keep_their_ids<B>(items: Seq<StreamItem<B>>)
    requires
        forall|i: int| 0 <= i < items.len() ==> is_answer(#[trigger] items[i]),
    ensures
        items.filter_map(correlator()).len() == items.len(),
        forall|i: int|
            0 <= i < items.len() ==> (#[trigger] items.filter_map(correlator())[i]) is Ok,
        answered_ids(items.filter_map(correlator())) == items.map_values(
            |item: StreamItem<B>| answered_path(item),
        ).map_values(|path: Seq<char>| last_segment(path)),
    decreases items.len(),
{
    let id_of = |element: FirestoreResult<Correlated<RawDocument<B>>>| element_id(element);
    let out = items.filter_map(correlator());
    let paths = items.map_values(|item: StreamItem<B>| answered_path(item));
    let ids = paths.map_values(|path: Seq<char>| last_segment(path));
    if items.len() == 0 {
        assert(answered_ids(out) =~= ids);
    } else {
        let front = items.drop_last();
        let last = items.last();
        assert(is_answer(last));
        assert forall|i: int| 0 <= i < front.len() implies is_answer(#[trigger] front[i]) by {
            assert(front[i] == items[i]);
        }
        lemma_answers_keep_their_ids(front);
        let front_out = front.filter_map(correlator());
        let element = correlated(last)->Some_0;
        assert(out == front_out + seq![element]);
        assert(out.drop_last() =~= front_out);
        assert(out.last() == element);
        assert(element_id(element) == Some(last_segment(answered_path(last))));
        assert(out.filter_map(id_of) == front_out.filter_map(id_of) + seq![
            last_segment(answered_path(last)),
        ]);
        let front_paths = front.map_values(|item: StreamItem<B>| answered_path(item));
        assert(front_paths =~= paths.drop_last());
        assert(ids =~= front_paths.map_values(|path: Seq<char>| last_segment(path)) + seq![
            last_segment(answered_path(last)),
        ]);
    }
}

/// Identity preservation: where the service answers every requested path
/// once, in whatever order, and the channel does not fail, the identifiers
/// in the result are the requested identifiers, each as often as it was
/// asked for. `paths[i]` is the path that stands for `ids[i]`, whose last
/// segment is that identifier.
pub proof fn lemma_identity_preserved<B>(
    ids: Seq<Seq<char>>,
    paths: Seq<Seq<char>>,
    items: Seq<StreamItem<B>>,
)
    requires
        paths.len() == ids.len(),
        forall|i: int| 0 <= i < ids.len() ==> last_segment(#[trigger] paths[i]) == ids[i],
        forall|i: int| 0 <= i < items.len() ==> is_answer(#[trigger] items[i]),
        items.map_values(|item: StreamItem<B>| answered_path(item)).to_multiset()
            == paths.to_multiset(),
    ensures
        items.filter_map(correlator()).len() == ids.len(),
        forall|i: int|
            0 <= i < items.len() ==> (#[trigger] items.filter_map(correlator())[i]) is Ok,
        answered_ids(items.filter_map(correlator())).to_multiset() == ids.to_multiset(),
{
    broadcast use vstd::seq_lib::group_to_multiset_ensures;

    let segment = |path: Seq<char>| last_segment(path);
    let answered = items.map_values(|item: StreamItem<B>| answered_path(item));
    lemma_answers_keep_their_ids(items);
    lemma_map_keeps_multiset(answered, paths, segment);
    assert(paths.map_values(segment) =~= ids);
    vstd::seq_lib::to_multiset_len(answered);
    vstd::seq_lib::to_multiset_len(paths);
}

/// Missing is no error: the answer that no document stands under a path
/// whose last segment is `id` gives the pair of `id` and no document in the
/// error-preserving view, the same pair in the error-suppressing view, and
/// the same again in both typed views.
pub proof fn lemma_missing_is_not_an_error<B, T>(
    prefix: Seq<char>,
    id: Seq<char>,
    full_name: String,
)
    requires
        !id.contains('/'),
        full_name@ == prefix.push('/') + id,
    ensures
        correlated::<B>(Ok(Some(Envelope::Missing(full_name)))) == Some(
            Ok::<Correlated<RawDocument<B>>, FirestoreError>((id, None)),
        ),
        surfaced(Ok::<Correlated<RawDocument<B>>, FirestoreError>((id, None))) == Some(
            (id, None::<RawDocument<B>>),
        ),
        typed::<Seq<char>, T>(Ok((id, None))) == Ok::<Correlated<T>, FirestoreError>((id, None)),
        typed_surfaced::<Seq<char>, T>((id, None)) == Some((id, None::<T>)),
{
    lemma_last_segment_of_joined(prefix, id);
}

/// Not-found folding: the single-object result folds to no object exactly
/// when the fetch or the decode ended in "no such document"; an object is
/// returned as itself, and any other failure, a failed decode among them,
/// stays that failure.
pub proof fn lemma_only_not_found_folds<T>(fetched: FirestoreResult<FirestoreResult<T>>)
    ensures
        folded(decoded(fetched)) == Ok::<Option<T>, FirestoreError>(None) <==> (decoded(
            fetched,
        ) matches Err(error) && error is DataNotFoundError),
        folded(decoded(fetched)) == match decoded(fetched) {
            Ok(object) => Ok::<Option<T>, FirestoreError>(Some(object)),
            Err(FirestoreError::DataNotFoundError(_)) => Ok(None),
            Err(error) => Err(error),
        },
        decoded(fetched) == match fetched {
            Ok(Ok(object)) => Ok::<T, FirestoreError>(object),
            Ok(Err(error)) => Err(error),
            Err(error) => Err(error),
        },
{
}

/// Suppression liveness for failures of the channel: a failed element
/// gives nothing and takes nothing away. What stood before it and what
/// comes after it appear as if it had not been there.
pub proof fn lemma_failure_does_not_end_the_view<P>(
    before: Seq<FirestoreResult<P>>,
    error: FirestoreError,
    after: Seq<FirestoreResult<P>>,
)
    ensures
        (before.push(Err(error)) + after).filter_map(surfacer()) == before.filter_map(surfacer())
            + after.filter_map(surfacer()),
{
    let failed = seq![Err::<P, FirestoreError>(error)];
    assert(before.push(Err(error)) =~= before + failed);
    lemma_filter_map_concat(before + failed, after, surfacer());
    lemma_filter_map_concat(before, failed, surfacer());
    Seq::lemma_filter_map_singleton(Err::<P, FirestoreError>(error), surfacer());
    assert(before.filter_map(surfacer()) + Seq::<P>::empty() =~= before.filter_map(surfacer()));
}

/// Suppression liveness for failed decodes: a pair whose document could
/// not be decoded gives nothing and takes nothing away.
pub proof fn lemma_failed_decode_does_not_end_the_view<I, T>(
    before: Seq<(I, Option<FirestoreResult<T>>)>,
    id: I,
    error: FirestoreError,
    after: Seq<(I, Option<FirestoreResult<T>>)>,
)
    ensures
        (before.push((id, Some(Err(error)))) + after).filter_map(typed_surfacer())
            == before.filter_map(typed_surfacer()) + after.filter_map(typed_surfacer()),
{
    let bad: (I, Option<FirestoreResult<T>>) = (id, Some(Err(error)));
    let failed = seq![bad];
    assert(before.push(bad) =~= before + failed);
    lemma_filter_map_concat(before + failed, after, typed_surfacer());
    lemma_filter_map_concat(before, failed, typed_surfacer());
    Seq::lemma_filter_map_singleton(bad, typed_surfacer());
    assert(before.filter_map(typed_surfacer()) + Seq::<(I, Option<T>)>::empty()
        =~= before.filter_map(typed_surfacer()));
}

/// Every pair of a result appears in its error-suppressing view: an
/// element that is no failure is never dropped.
pub proof fn lemma_pairs_survive<P>(elements: Seq<FirestoreResult<P>>, i: int)
    requires
        0 <= i < elements.len(),
        elements[i] is Ok,
    ensures
        elements.filter_map(surfacer()).contains(elements[i]->Ok_0),
{
    let head = elements.take(i);
    let tail = elements.skip(i + 1);
    let one = seq![elements[i]];
    assert(elements =~= (head + one) + tail);
    lemma_filter_map_concat(head + one, tail, surfacer());
    lemma_filter_map_concat(head, one, surfacer());
    Seq::lemma_filter_map_singleton(elements[i], surfacer());
    let kept = elements.filter_map(surfacer());
    let at = head.filter_map(surfacer()).len() as int;
    assert(kept[at] == elements[i]->Ok_0);
}

} // verus!
