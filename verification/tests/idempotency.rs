use email_service::idempotency::codec::saved_response_from_columns;
use email_service::idempotency::key::MAX_KEY_LENGTH;
use email_service::idempotency::persistance::{
    abort_processing, get_saved_response, save_response, try_processing, IdempotencyStore,
    NextAction, ProcessingGuard,
};
use email_service::idempotency::{HeaderPairRecord, IdempotencyKey, SavedResponse};

fn key(raw: &str) -> IdempotencyKey {
    IdempotencyKey::parse(raw.to_string()).expect("key must parse")
}

fn text_response(status: u16, body: &[u8]) -> SavedResponse {
    SavedResponse {
        status_code: status,
        headers: vec![HeaderPairRecord {
            name: "Content-Type".to_string(),
            value: b"text/plain".to_vec(),
        }],
        body: body.to_vec(),
    }
}

fn claim(store: &mut IdempotencyStore, k: &IdempotencyKey, account: u128) -> ProcessingGuard {
    match try_processing(store, k, account) {
        Some(NextAction::StartProcessing(guard)) => guard,
        Some(NextAction::ReturnSavedResponse(_)) => panic!("expected a fresh claim, got a replay"),
        None => panic!("expected a fresh claim, got no admission"),
    }
}

#[test]
fn empty_key_is_rejected_before_any_storage_interaction() {
    assert!(IdempotencyKey::parse("".to_string()).is_err());
    // Nothing was stored: the key-less request never reached the store, so a
    // later attempt under any key still claims it afresh.
    let mut store = IdempotencyStore::new();
    let k = key("k1");
    assert!(matches!(
        try_processing(&mut store, &k, 1),
        Some(NextAction::StartProcessing(_))
    ));
}

#[test]
fn key_length_bound_is_exact() {
    assert!(IdempotencyKey::parse("a".repeat(MAX_KEY_LENGTH)).is_ok());
    assert!(IdempotencyKey::parse("a".repeat(MAX_KEY_LENGTH + 1)).is_err());
    let k = key("some-token");
    assert_eq!(k.as_str(), "some-token");
}

#[test]
fn first_admission_claims_then_duplicates_replay_identically() {
    let mut store = IdempotencyStore::new();
    let k = key("k1");
    let account = 7u128;

    let guard = claim(&mut store, &k, account);
    let produced = save_response(&mut store, guard, text_response(200, b"OK"))
        .expect("completing a fresh claim must succeed");
    assert_eq!(produced.status_code, 200);
    assert_eq!(produced.body, b"OK".to_vec());

    for _ in 0..3 {
        match try_processing(&mut store, &k, account) {
            Some(NextAction::ReturnSavedResponse(replay)) => {
                assert_eq!(replay.status_code, 200);
                assert_eq!(replay.headers.len(), 1);
                assert_eq!(replay.headers[0].name, "Content-Type");
                assert_eq!(replay.headers[0].value, b"text/plain".to_vec());
                assert_eq!(replay.body, b"OK".to_vec());
            }
            Some(NextAction::StartProcessing(_)) => {
                panic!("a completed pair must never be claimed again")
            }
            None => panic!("a completed pair must replay"),
        }
    }
}

#[test]
fn duplicate_admission_while_claim_is_open_gets_no_response() {
    let mut store = IdempotencyStore::new();
    let k = key("k1");
    let guard = claim(&mut store, &k, 1);

    // The pair is claimed but nothing is persisted yet: a duplicate neither
    // claims it again nor receives a replay.
    assert!(try_processing(&mut store, &k, 1).is_none());
    assert!(get_saved_response(&store, &k, 1).is_none());

    // The first claim is still live and completes normally.
    assert!(save_response(&mut store, guard, text_response(200, b"OK")).is_ok());
    assert!(get_saved_response(&store, &k, 1).is_some());
}

#[test]
fn failed_attempt_does_not_consume_the_key() {
    let mut store = IdempotencyStore::new();
    let k = key("k1");

    let guard = claim(&mut store, &k, 1);
    // The side effect fails before anything is persisted: the claim is
    // abandoned and the marker vanishes.
    abort_processing(&mut store, guard);
    assert!(get_saved_response(&store, &k, 1).is_none());

    // A retry claims the pair afresh and completes.
    let guard = claim(&mut store, &k, 1);
    assert!(save_response(&mut store, guard, text_response(200, b"OK")).is_ok());
}

#[test]
fn guard_without_a_pending_claim_cannot_complete() {
    let mut claimed_store = IdempotencyStore::new();
    let mut other_store = IdempotencyStore::new();
    let k = key("k1");

    // The claim was taken against one store; completing against a store
    // holding no pending marker for the pair fails and stores nothing.
    let guard = claim(&mut claimed_store, &k, 1);
    assert!(save_response(&mut other_store, guard, text_response(200, b"OK")).is_err());
    assert!(get_saved_response(&other_store, &k, 1).is_none());
    assert!(matches!(
        try_processing(&mut other_store, &k, 1),
        Some(NextAction::StartProcessing(_))
    ));
}

#[test]
fn abort_without_a_pending_claim_changes_nothing() {
    let mut claimed_store = IdempotencyStore::new();
    let mut other_store = IdempotencyStore::new();
    let k = key("k1");

    let guard = claim(&mut other_store, &k, 1);
    save_response(&mut other_store, guard, text_response(200, b"OK")).unwrap();

    // Aborting with a guard whose pair is completed elsewhere, or absent,
    // discards nothing: the completed record still replays.
    let foreign = claim(&mut claimed_store, &k, 1);
    abort_processing(&mut other_store, foreign);
    assert!(get_saved_response(&other_store, &k, 1).is_some());
}

#[test]
fn distinct_pairs_are_independent() {
    let mut store = IdempotencyStore::new();
    let k1 = key("k1");
    let k2 = key("k2");

    // Two keys under one account.
    let g1 = claim(&mut store, &k1, 1);
    let g2 = claim(&mut store, &k2, 1);
    save_response(&mut store, g1, text_response(200, b"first")).unwrap();
    save_response(&mut store, g2, text_response(201, b"second")).unwrap();

    // One key string under two accounts.
    let g3 = claim(&mut store, &k1, 2);
    save_response(&mut store, g3, text_response(202, b"third")).unwrap();

    let r1 = get_saved_response(&store, &k1, 1).unwrap();
    let r2 = get_saved_response(&store, &k2, 1).unwrap();
    let r3 = get_saved_response(&store, &k1, 2).unwrap();
    assert_eq!((r1.status_code, r1.body), (200, b"first".to_vec()));
    assert_eq!((r2.status_code, r2.body), (201, b"second".to_vec()));
    assert_eq!((r3.status_code, r3.body), (202, b"third".to_vec()));
}

#[test]
fn completed_response_round_trips_exactly() {
    let mut store = IdempotencyStore::new();
    let k = key("k1");
    let account = 0xA_u128;

    let guard = claim(&mut store, &k, account);
    save_response(&mut store, guard, text_response(200, b"OK")).unwrap();

    let replay = get_saved_response(&store, &k, account).expect("completed pair must replay");
    assert_eq!(replay.status_code, 200);
    assert_eq!(replay.headers.len(), 1);
    assert_eq!(replay.headers[0].name, "Content-Type");
    assert_eq!(replay.headers[0].value, b"text/plain".to_vec());
    assert_eq!(replay.body, b"OK".to_vec());
}

#[test]
fn malformed_stored_header_pairs_are_dropped_not_fatal() {
    let decoded = saved_response_from_columns(
        Some(200),
        Some(vec![
            HeaderPairRecord {
                name: "ok-name".to_string(),
                value: b"fine".to_vec(),
            },
            HeaderPairRecord {
                name: "bad name with spaces".to_string(),
                value: b"dropped".to_vec(),
            },
            HeaderPairRecord {
                name: "ok-too".to_string(),
                value: b"\n".to_vec(),
            },
        ]),
        Some(b"body".to_vec()),
    )
    .expect("a populated record still decodes");
    assert_eq!(decoded.status_code, 200);
    assert_eq!(decoded.headers.len(), 1);
    assert_eq!(decoded.headers[0].name, "ok-name");
    assert_eq!(decoded.headers[0].value, b"fine".to_vec());
    assert_eq!(decoded.body, b"body".to_vec());
}

#[test]
fn records_that_do_not_decode_yield_nothing() {
    // Pending marker: no status yet.
    assert!(saved_response_from_columns(None, Some(vec![]), Some(vec![])).is_none());
    // Status out of the range of HTTP responses.
    assert!(saved_response_from_columns(Some(99), Some(vec![]), Some(vec![])).is_none());
    assert!(saved_response_from_columns(Some(1000), Some(vec![]), Some(vec![])).is_none());
    assert!(saved_response_from_columns(Some(-200), Some(vec![]), Some(vec![])).is_none());
    // Columns missing altogether.
    assert!(saved_response_from_columns(Some(200), None, Some(vec![])).is_none());
    assert!(saved_response_from_columns(Some(200), Some(vec![]), None).is_none());
    // Boundary statuses that do decode.
    assert!(saved_response_from_columns(Some(100), Some(vec![]), Some(vec![])).is_some());
    assert!(saved_response_from_columns(Some(999), Some(vec![]), Some(vec![])).is_some());
}

#[test]
fn wellformedness_check_matches_the_replayable_shape() {
    let good = text_response(200, b"OK");
    assert!(good.is_wellformed());

    let bad_status = SavedResponse {
        status_code: 42,
        headers: vec![],
        body: vec![],
    };
    assert!(!bad_status.is_wellformed());

    let bad_header = SavedResponse {
        status_code: 200,
        headers: vec![HeaderPairRecord {
            name: "no spaces allowed".to_string(),
            value: b"x".to_vec(),
        }],
        body: vec![],
    };
    assert!(!bad_header.is_wellformed());
}
