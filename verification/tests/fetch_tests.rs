use firestore_get::error::{FirestoreDatabaseError, FirestoreError, FirestoreResult};
use firestore_get::fetch::{begin_fetch, next_step, run_fetch, FetchRequest, FetchStep};

fn retryable(details: &str) -> FirestoreError {
    FirestoreError::DatabaseError(FirestoreDatabaseError {
        retry_possible: true,
        details: details.to_string(),
    })
}

fn fatal(details: &str) -> FirestoreError {
    FirestoreError::DatabaseError(FirestoreDatabaseError {
        retry_possible: false,
        details: details.to_string(),
    })
}

fn request(mask: Option<Vec<String>>, retries: usize) -> FetchRequest {
    FetchRequest {
        document_path: "projects/p/databases/d/documents/users/u1".to_string(),
        return_only_fields: mask,
        retries,
    }
}

fn name_mask() -> Option<Vec<String>> {
    Some(vec!["name".to_string(), "age".to_string()])
}

#[test]
fn begin_fetch_starts_at_zero_with_the_given_mask() {
    let first = begin_fetch(Ok("root/users/u1".to_string()), name_mask());
    assert_eq!(
        first,
        Ok(FetchRequest {
            document_path: "root/users/u1".to_string(),
            return_only_fields: name_mask(),
            retries: 0,
        })
    );
}

#[test]
fn begin_fetch_passes_a_path_error_on() {
    let bad = FirestoreError::InvalidParametersError("id holds a slash".to_string());
    assert_eq!(begin_fetch(Err(bad.clone()), None), Err(bad));
}

#[test]
fn next_step_finishes_on_success() {
    let step = next_step(&request(name_mask(), 0), Ok("doc"), 3);
    assert_eq!(step, FetchStep::Finish(Ok("doc")));
}

#[test]
fn next_step_retries_a_retryable_failure_without_mask() {
    let outcome: FirestoreResult<u8> = Err(retryable("unavailable"));
    let step = next_step(&request(name_mask(), 0), outcome, 3);
    assert_eq!(step, FetchStep::Retry(request(None, 1)));
}

#[test]
fn next_step_stops_at_the_limit() {
    let outcome: FirestoreResult<u8> = Err(retryable("unavailable"));
    let step = next_step(&request(None, 3), outcome, 3);
    assert_eq!(step, FetchStep::Finish(Err(retryable("unavailable"))));
}

#[test]
fn next_step_never_retries_with_a_zero_limit() {
    let outcome: FirestoreResult<u8> = Err(retryable("unavailable"));
    let step = next_step(&request(None, 0), outcome, 0);
    assert_eq!(step, FetchStep::Finish(Err(retryable("unavailable"))));
}

#[test]
fn next_step_does_not_retry_a_fatal_failure() {
    let outcome: FirestoreResult<u8> = Err(fatal("permission denied"));
    let step = next_step(&request(None, 0), outcome, 3);
    assert_eq!(step, FetchStep::Finish(Err(fatal("permission denied"))));
}

#[test]
fn next_step_does_not_retry_other_kinds_of_failure() {
    let not_found: FirestoreResult<u8> = Err(FirestoreError::DataNotFoundError("gone".to_string()));
    assert_eq!(
        next_step(&request(None, 0), not_found.clone(), 3),
        FetchStep::Finish(not_found)
    );
    let decode: FirestoreResult<u8> = Err(FirestoreError::DeserializeError("shape".to_string()));
    assert_eq!(next_step(&request(None, 0), decode.clone(), 3), FetchStep::Finish(decode));
    let path: FirestoreResult<u8> = Err(FirestoreError::InvalidParametersError("id".to_string()));
    assert_eq!(next_step(&request(None, 0), path.clone(), 3), FetchStep::Finish(path));
}

#[test]
fn a_fetch_that_always_fails_retryably_makes_max_plus_one_attempts() {
    let max_retries: usize = 3;
    let outcomes: Vec<FirestoreResult<u8>> = (0..10)
        .map(|i| Err(retryable(&format!("attempt {}", i))))
        .collect();
    let run = run_fetch(request(name_mask(), 0), outcomes, max_retries);
    assert_eq!(run.requests.len(), max_retries + 1);
    assert_eq!(run.result, Some(Err(retryable("attempt 3"))));
}

#[test]
fn a_driven_loop_counts_the_same_attempts() {
    let max_retries: usize = 5;
    let mut attempts: usize = 0;
    let mut current = request(name_mask(), 0);
    let result: FirestoreResult<u8> = loop {
        let outcome: FirestoreResult<u8> = Err(retryable(&format!("attempt {}", attempts)));
        attempts += 1;
        match next_step(&current, outcome, max_retries) {
            FetchStep::Finish(result) => break result,
            FetchStep::Retry(next) => current = next,
        }
    };
    assert_eq!(attempts, max_retries + 1);
    assert_eq!(result, Err(retryable("attempt 5")));
}

#[test]
fn retried_requests_carry_no_mask() {
    let outcomes: Vec<FirestoreResult<u8>> =
        vec![Err(retryable("one")), Err(retryable("two")), Ok(7)];
    let run = run_fetch(request(name_mask(), 0), outcomes, 4);
    assert_eq!(
        run.requests,
        vec![request(name_mask(), 0), request(None, 1), request(None, 2)]
    );
    assert_eq!(run.result, Some(Ok(7)));
}

#[test]
fn a_fetch_stops_at_the_first_fatal_failure() {
    let outcomes: Vec<FirestoreResult<u8>> =
        vec![Err(retryable("one")), Err(fatal("two")), Ok(7)];
    let run = run_fetch(request(None, 0), outcomes, 4);
    assert_eq!(run.requests.len(), 2);
    assert_eq!(run.result, Some(Err(fatal("two"))));
}

#[test]
fn a_fetch_without_answers_has_one_open_request() {
    let outcomes: Vec<FirestoreResult<u8>> = Vec::new();
    let run = run_fetch(request(name_mask(), 0), outcomes, 4);
    assert_eq!(run.requests, vec![request(name_mask(), 0)]);
    assert_eq!(run.result, None);
}

#[test]
fn a_fetch_whose_answers_run_out_is_still_open() {
    let outcomes: Vec<FirestoreResult<u8>> = vec![Err(retryable("one"))];
    let run = run_fetch(request(name_mask(), 0), outcomes, 4);
    assert_eq!(run.requests, vec![request(name_mask(), 0), request(None, 1)]);
    assert_eq!(run.result, None);
}

#[test]
fn error_kinds_are_told_apart() {
    assert!(retryable("x").retry_possible());
    assert!(!fatal("x").retry_possible());
    assert!(!FirestoreError::DataNotFoundError("x".to_string()).retry_possible());
    assert!(FirestoreError::DataNotFoundError("x".to_string()).not_found());
    assert!(!FirestoreError::DeserializeError("x".to_string()).not_found());
    assert!(!retryable("x").not_found());
}
