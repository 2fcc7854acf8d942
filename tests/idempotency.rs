use zero2prod::idempotency::{
    begin_request, save_response, ClaimOutcome, CompleteError, HeaderPair, IdempotencyKey,
    IdempotencyKeyError, IdempotencyStore, PublishStep, SavedResponse,
};

fn key(s: &str) -> IdempotencyKey {
    IdempotencyKey::parse(s.to_string()).unwrap()
}

fn response() -> SavedResponse {
    SavedResponse {
        status: 303,
        headers: vec![
            HeaderPair { name: "location".to_string(), value: b"/admin/newsletters".to_vec() },
            HeaderPair { name: "x-trace".to_string(), value: vec![0, 255, 7] },
        ],
        body: b"done".to_vec(),
    }
}

fn same(a: &SavedResponse, b: &SavedResponse) -> bool {
    a.status == b.status
        && a.body == b.body
        && a.headers.len() == b.headers.len()
        && a.headers.iter().zip(b.headers.iter()).all(|(x, y)| x.name == y.name && x.value == y.value)
}

#[test]
fn an_empty_key_is_rejected() {
    assert_eq!(IdempotencyKey::parse(String::new()).unwrap_err(), IdempotencyKeyError::Empty);
}

#[test]
fn a_key_of_fifty_characters_is_rejected() {
    assert_eq!(IdempotencyKey::parse("k".repeat(50)).unwrap_err(), IdempotencyKeyError::TooLong);
    assert!(IdempotencyKey::parse("k".repeat(49)).is_ok());
}

#[test]
fn key_error_messages() {
    assert_eq!(IdempotencyKeyError::Empty.message(), "The idempotency key cannot be empty");
    assert_eq!(
        IdempotencyKeyError::TooLong.message(),
        "The idempotency key must be shorter than 50 characters"
    );
}

#[test]
fn lookup_misses_until_completed() {
    let mut store = IdempotencyStore::new();
    let k = key("abc");
    assert!(store.lookup(1, &k).is_none());
    assert_eq!(store.claim(1, &k), ClaimOutcome::Acquired);
    assert!(store.lookup(1, &k).is_none());
    assert_eq!(store.complete(1, &k, response()), Ok(()));
    assert!(same(&store.lookup(1, &k).unwrap(), &response()));
}

#[test]
fn a_second_claim_is_refused() {
    let mut store = IdempotencyStore::new();
    let k = key("abc");
    assert_eq!(store.claim(7, &k), ClaimOutcome::Acquired);
    assert_eq!(store.claim(7, &k), ClaimOutcome::AlreadyClaimed);
}

#[test]
fn keys_are_scoped_per_actor() {
    let mut store = IdempotencyStore::new();
    let k = key("abc");
    assert_eq!(store.claim(1, &k), ClaimOutcome::Acquired);
    assert_eq!(store.claim(2, &k), ClaimOutcome::Acquired);
    assert_eq!(store.claim(1, &key("abd")), ClaimOutcome::Acquired);
}

#[test]
fn completing_without_a_claim_or_twice_fails() {
    let mut store = IdempotencyStore::new();
    let k = key("abc");
    assert_eq!(store.complete(1, &k, response()), Err(CompleteError::NotClaimed));
    store.claim(1, &k);
    assert_eq!(store.complete(1, &k, response()), Ok(()));
    let other = SavedResponse { status: 500, headers: vec![], body: vec![] };
    assert_eq!(store.complete(1, &k, other), Err(CompleteError::AlreadyCompleted));
    assert_eq!(store.lookup(1, &k).unwrap().status, 303);
}

#[test]
fn repeated_requests_execute_once_and_replay_identical_bytes() {
    let mut store = IdempotencyStore::new();
    let k = key("issue-1");
    let mut executions = 0;
    let mut replies: Vec<SavedResponse> = Vec::new();
    for _ in 0..5 {
        match begin_request(&mut store, 42, &k) {
            PublishStep::Execute => {
                executions += 1;
                replies.push(save_response(&mut store, 42, &k, response()).unwrap());
            }
            PublishStep::Replay(saved) => replies.push(saved),
            PublishStep::Conflict => panic!("no request is in flight"),
        }
    }
    assert_eq!(executions, 1);
    assert_eq!(replies.len(), 5);
    for r in &replies {
        assert!(same(r, &response()));
    }
}

#[test]
fn a_concurrent_duplicate_sees_a_conflict_then_the_saved_response() {
    let mut store = IdempotencyStore::new();
    let k = key("issue-2");
    assert!(matches!(begin_request(&mut store, 9, &k), PublishStep::Execute));
    assert!(matches!(begin_request(&mut store, 9, &k), PublishStep::Conflict));
    save_response(&mut store, 9, &k, response()).unwrap();
    match begin_request(&mut store, 9, &k) {
        PublishStep::Replay(saved) => assert!(same(&saved, &response())),
        _ => panic!("expected a replay"),
    }
}

#[test]
fn duplicate_copies_every_byte() {
    let r = response();
    assert!(same(&r.duplicate(), &r));
}
