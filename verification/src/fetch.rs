use crate::error::{FirestoreError, FirestoreResult};
use vstd::prelude::*;

verus! {

/// One request for one document: what the caller has to send next.
#[derive(Debug, Clone, PartialEq, Eq)]
pub struct FetchRequest {
    /// The document's full path.
    pub document_path: String,
    /// The fields to return; `None` asks for the whole document.
    pub return_only_fields: Option<Vec<String>>,
    /// How many attempts have failed before this one.
    pub retries: usize,
}

/// What follows an attempt.
#[derive(Debug, PartialEq, Eq)]
pub enum FetchStep<D> {
    /// The fetch is over, with this result.
    Finish(FirestoreResult<D>),
    /// The attempt failed in a way that allows another: send this request.
    Retry(FetchRequest),
}

/// The request that opens a fetch: the mask as given, no attempt made yet.
pub open spec fn spec_first_request(
    document_path: String,
    return_only_fields: Option<Vec<String>>,
) -> FetchRequest {
    FetchRequest { document_path, return_only_fields, retries: 0 }
}

/// The request that follows a failed attempt: the same document, one more
/// attempt counted, and no field mask, so that a retry always asks for the
/// whole document.
pub open spec fn spec_retry_request(request: FetchRequest) -> FetchRequest {
    FetchRequest {
        document_path: request.document_path,
        return_only_fields: None,
        retries: (request.retries + 1) as usize,
    }
}

/// An attempt is repeated when it failed retryably and the limit is not
/// reached.
pub open spec fn retries_after(
    request: FetchRequest,
    error: FirestoreError,
    max_retries: usize,
) -> bool {
    error.is_retryable() && request.retries < max_retries
}

pub open spec fn spec_next_step<D>(
    request: FetchRequest,
    outcome: FirestoreResult<D>,
    max_retries: usize,
) -> FetchStep<D> {
    match outcome {
        Ok(_) => FetchStep::Finish(outcome),
        Err(error) => if retries_after(request, error, max_retries) {
            FetchStep::Retry(spec_retry_request(request))
        } else {
            FetchStep::Finish(outcome)
        },
    }
}

/// Opens a fetch of one document. A path that could not be resolved ends
/// the call before anything is sent.
pub fn begin_fetch(
    resolved: FirestoreResult<String>,
    return_only_fields: Option<Vec<String>>,
) -> (first: FirestoreResult<FetchRequest>)
    ensures
        first == match resolved {
            Ok(document_path) => Ok(spec_first_request(document_path, return_only_fields)),
            Err(error) => Err(error),
        },
{
    match resolved {
        Ok(document_path) => Ok(FetchRequest { document_path, return_only_fields, retries: 0 }),
        Err(error) => Err(error),
    }
}

/// Decides what follows the attempt `request`, which ended in `outcome`.
pub fn next_step<D>(request: &FetchRequest, outcome: FirestoreResult<D>, max_retries: usize) -> (step:
    FetchStep<D>)
    ensures
        step == spec_next_step(*request, outcome, max_retries),
{
    match outcome {
        Ok(document) => FetchStep::Finish(Ok(document)),
        Err(error) => {
            if error.retry_possible() && request.retries < max_retries {
                FetchStep::Retry(
                    FetchRequest {
                        document_path: request.document_path.clone(),
                        return_only_fields: None,
                        retries: request.retries + 1,
                    },
                )
            } else {
                FetchStep::Finish(Err(error))
            }
        },
    }
}

/// The requests that a fetch sends when the service answers its attempts
/// with `outcomes`, in that order. The fetch stops at the first answer that
/// finishes it; with the answers used up, the last request is still open.
pub open spec fn requests_sent<D>(
    request: FetchRequest,
    outcomes: Seq<FirestoreResult<D>>,
    max_retries: usize,
) -> Seq<FetchRequest>
    decreases outcomes.len(),
{
    if outcomes.len() == 0 {
        seq![request]
    } else {
        match spec_next_step(request, outcomes.first(), max_retries) {
            FetchStep::Finish(_) => seq![request],
            FetchStep::Retry(next) => seq![request] + requests_sent(
                next,
                outcomes.drop_first(),
                max_retries,
            ),
        }
    }
}

/// What such a fetch returns: `None` while its last request is still open.
pub open spec fn fetch_result<D>(
    request: FetchRequest,
    outcomes: Seq<FirestoreResult<D>>,
    max_retries: usize,
) -> Option<FirestoreResult<D>>
    decreases outcomes.len(),
{
    if outcomes.len() == 0 {
        None
    } else {
        match spec_next_step(request, outcomes.first(), max_retries) {
            FetchStep::Finish(result) => Some(result),
            FetchStep::Retry(next) => fetch_result(next, outcomes.drop_first(), max_retries),
        }
    }
}

/// The record of a fetch that was run against a list of answers.
#[derive(Debug, PartialEq, Eq)]
pub struct FetchRun<D> {
    /// Every request that was sent, in order.
    pub requests: Vec<FetchRequest>,
    /// The result, unless the answers ran out first.
    pub result: Option<FirestoreResult<D>>,
}

/// Runs a whole fetch against answers that are known beforehand, taking
/// one answer per attempt.
pub fn run_fetch<D>(
    first: FetchRequest,
    outcomes: Vec<FirestoreResult<D>>,
    max_retries: usize,
) -> (run: FetchRun<D>)
    ensures
        run.requests@ == requests_sent(first, outcomes@, max_retries),
        run.result == fetch_result(first, outcomes@, max_retries),
{
    let ghost all = outcomes@;
    let ghost opening = first;
    let mut requests: Vec<FetchRequest> = Vec::new();
    let mut current = first;
    let mut result: Option<FirestoreResult<D>> = None;
    let mut finished: bool = false;
    assert(all.skip(0) =~= all);
    for outcome in it: outcomes.into_iter()
        invariant
            it.seq() == all,
            !finished ==> requests_sent(opening, all, max_retries) == requests@ + requests_sent(
                current,
                all.skip(it.index() as int),
                max_retries,
            ),
            !finished ==> fetch_result(opening, all, max_retries) == fetch_result(
                current,
                all.skip(it.index() as int),
                max_retries,
            ),
            !finished ==> result is None,
            finished ==> requests@.push(current) == requests_sent(opening, all, max_retries),
            finished ==> result == fetch_result(opening, all, max_retries),
    {
        if !finished {
            let ghost rest = all.skip(it.index() as int);
            assert(rest.first() == outcome);
            assert(rest.drop_first() =~= all.skip(it.index() + 1));
            match next_step(&current, outcome, max_retries) {
                FetchStep::Finish(r) => {
                    result = Some(r);
                    finished = true;
                },
                FetchStep::Retry(next) => {
                    requests.push(current);
                    current = next;
                },
            }
        }
    }
    requests.push(current);
    FetchRun { requests, result }
}

/// Whether an answer is a failure that is marked as worth another attempt.
pub open spec fn fails_retryably<D>(outcome: FirestoreResult<D>) -> bool {
    match outcome {
        Ok(_) => false,
        Err(error) => error.is_retryable(),
    }
}

/// A fetch whose every attempt fails retryably sends the requests that the
/// limit still allows, one more than the retries that are left, and then
/// returns the failure of the last attempt.
pub proof fn lemma_retry_bound_from<D>(
    request: FetchRequest,
    outcomes: Seq<FirestoreResult<D>>,
    max_retries: usize,
)
    requires
        request.retries <= max_retries,
        outcomes.len() > max_retries - request.retries,
        forall|i: int|
            0 <= i <= max_retries - request.retries ==> fails_retryably(#[trigger] outcomes[i]),
    ensures
        requests_sent(request, outcomes, max_retries).len() == max_retries - request.retries + 1,
        fetch_result(request, outcomes, max_retries) == Some(
            outcomes[max_retries - request.retries],
        ),
    decreases max_retries - request.retries,
{
    assert(fails_retryably(outcomes[0]));
    if request.retries < max_retries {
        let next = spec_retry_request(request);
        let rest = outcomes.drop_first();
        assert forall|i: int| 0 <= i <= max_retries - next.retries implies fails_retryably(
            #[trigger] rest[i],
        ) by {
            assert(rest[i] == outcomes[i + 1]);
        }
        lemma_retry_bound_from(next, rest, max_retries);
        assert(rest[max_retries - next.retries] == outcomes[max_retries - request.retries]);
    }
}

/// Retry bound: a fetch that starts afresh and fails retryably at every
/// attempt makes exactly `max_retries + 1` attempts and then returns the
/// last failure.
pub proof fn lemma_retry_bound<D>(
    document_path: String,
    return_only_fields: Option<Vec<String>>,
    outcomes: Seq<FirestoreResult<D>>,
    max_retries: usize,
)
    requires
        outcomes.len() > max_retries,
        forall|i: int| 0 <= i <= max_retries ==> fails_retryably(#[trigger] outcomes[i]),
    ensures
        requests_sent(
            spec_first_request(document_path, return_only_fields),
            outcomes,
            max_retries,
        ).len() == max_retries + 1,
        fetch_result(spec_first_request(document_path, return_only_fields), outcomes, max_retries)
            == Some(outcomes[max_retries as int]),
{
    lemma_retry_bound_from(
        spec_first_request(document_path, return_only_fields),
        outcomes,
        max_retries,
    );
}

/// Whatever the service answers, a fetch never sends more requests than the
/// limit allows, nor more than one beyond the answers it got; it has a
/// result as soon as the answers are not used up.
pub proof fn lemma_attempts_bounded<D>(
    request: FetchRequest,
    outcomes: Seq<FirestoreResult<D>>,
    max_retries: usize,
)
    requires
        request.retries <= max_retries,
    ensures
        1 <= requests_sent(request, outcomes, max_retries).len() <= max_retries - request.retries
            + 1,
        requests_sent(request, outcomes, max_retries).len() <= outcomes.len() + 1,
        fetch_result(request, outcomes, max_retries) is Some <==> requests_sent(
            request,
            outcomes,
            max_retries,
        ).len() <= outcomes.len(),
    decreases outcomes.len(),
{
    if outcomes.len() > 0 {
        match spec_next_step(request, outcomes.first(), max_retries) {
            FetchStep::Finish(_) => {},
            FetchStep::Retry(next) => {
                lemma_attempts_bounded(next, outcomes.drop_first(), max_retries);
            },
        }
    }
}

/// Mask reset: every request after the first asks for the same document,
/// counts the attempts before it, which never exceed the limit, and carries
/// no field mask, whatever mask the first request had.
pub proof fn lemma_retries_ask_for_whole_document<D>(
    request: FetchRequest,
    outcomes: Seq<FirestoreResult<D>>,
    max_retries: usize,
)
    requires
        request.retries <= max_retries,
    ensures
        requests_sent(request, outcomes, max_retries)[0] == request,
        forall|i: int|
            1 <= i < requests_sent(request, outcomes, max_retries).len() ==> {
                let sent = #[trigger] requests_sent(request, outcomes, max_retries)[i];
                &&& sent.return_only_fields is None
                &&& sent.document_path == request.document_path
                &&& sent.retries == request.retries + i
                &&& sent.retries <= max_retries
            },
    decreases outcomes.len(),
{
    lemma_attempts_bounded(request, outcomes, max_retries);
    if outcomes.len() > 0 {
        match spec_next_step(request, outcomes.first(), max_retries) {
            FetchStep::Finish(_) => {},
            FetchStep::Retry(next) => {
                let tail = requests_sent(next, outcomes.drop_first(), max_retries);
                lemma_retries_ask_for_whole_document(next, outcomes.drop_first(), max_retries);
                let all = requests_sent(request, outcomes, max_retries);
                assert(all == seq![request] + tail);
                assert forall|i: int| 1 <= i < all.len() implies {
                    let sent = #[trigger] all[i];
                    &&& sent.return_only_fields is None
                    &&& sent.document_path == request.document_path
                    &&& sent.retries == request.retries + i
                    &&& sent.retries <= max_retries
                } by {
                    assert(all[i] == tail[i - 1]);
                }
            },
        }
    }
}

} // verus!
