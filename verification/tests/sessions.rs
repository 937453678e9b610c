use cookie_fetch::session::{
    PopOutcome, PushOutcome, SessionBroker, SessionError, CHANNEL_CAPACITY,
};

#[test]
fn reserve_then_claim_succeeds_exactly_once() {
    let mut broker = SessionBroker::new();
    let id = broker.reserve();
    assert_eq!(id, 0);
    assert_eq!(broker.claim(id), Ok(()));
    assert_eq!(broker.claim(id), Err(SessionError::Consumed));
    assert_eq!(broker.claim(7), Err(SessionError::Unestablished));
}

#[test]
fn freed_slots_are_reused_lowest_first() {
    let mut broker = SessionBroker::new();
    let a = broker.reserve();
    let b = broker.reserve();
    assert_eq!((a, b), (0, 1));
    broker.release(a).unwrap();
    assert_eq!(broker.reserve(), 0);
    assert_eq!(broker.reserve(), 2);
}

#[test]
fn pop_before_any_data_reports_no_content_yet() {
    let mut broker = SessionBroker::new();
    let id = broker.reserve();
    assert!(matches!(broker.pop_downstream(id), Ok(PopOutcome::NoContentYet)));
    // asking again changes nothing
    assert!(matches!(broker.pop_downstream(id), Ok(PopOutcome::NoContentYet)));
}

#[test]
fn chunks_come_out_in_push_order() {
    let mut broker = SessionBroker::new();
    let id = broker.reserve();
    for chunk in [b"a".to_vec(), b"b".to_vec(), b"c".to_vec()] {
        assert!(matches!(broker.push_downstream(id, chunk), Ok(PushOutcome::Accepted)));
    }
    for expected in [b"a".to_vec(), b"b".to_vec(), b"c".to_vec()] {
        match broker.pop_downstream(id) {
            Ok(PopOutcome::Chunk(c)) => assert_eq!(c, expected),
            other => panic!("expected a chunk, got {:?}", matches!(other, Ok(_))),
        }
    }
    assert!(matches!(broker.pop_downstream(id), Ok(PopOutcome::NoContentYet)));
    broker.close_downstream(id).unwrap();
    assert!(matches!(broker.pop_downstream(id), Ok(PopOutcome::Ended)));
}

#[test]
fn buffered_chunks_survive_a_close() {
    let mut broker = SessionBroker::new();
    let id = broker.reserve();
    broker.push_downstream(id, b"tail".to_vec()).unwrap();
    broker.close_downstream(id).unwrap();
    match broker.pop_downstream(id) {
        Ok(PopOutcome::Chunk(c)) => assert_eq!(c, b"tail".to_vec()),
        _ => panic!("the buffered chunk must still come out"),
    }
    assert!(matches!(broker.pop_downstream(id), Ok(PopOutcome::Ended)));
}

#[test]
fn full_channel_hands_the_chunk_back() {
    let mut broker = SessionBroker::new();
    let id = broker.reserve();
    for i in 0..CHANNEL_CAPACITY {
        let r = broker.push_upstream(id, vec![i as u8]);
        assert!(matches!(r, Ok(PushOutcome::Accepted)));
    }
    match broker.push_upstream(id, b"overflow".to_vec()) {
        Ok(PushOutcome::Full(c)) => assert_eq!(c, b"overflow".to_vec()),
        _ => panic!("a full channel must hand the chunk back"),
    }
}

#[test]
fn push_after_close_is_refused() {
    let mut broker = SessionBroker::new();
    let id = broker.reserve();
    broker.close_upstream(id).unwrap();
    match broker.push_upstream(id, b"late".to_vec()) {
        Ok(PushOutcome::Closed(c)) => assert_eq!(c, b"late".to_vec()),
        _ => panic!("a closed channel must refuse the push"),
    }
}

#[test]
fn operations_on_unknown_ids_fail() {
    let mut broker = SessionBroker::new();
    assert!(broker.push_upstream(3, b"x".to_vec()).is_err());
    assert!(broker.pop_downstream(3).is_err());
    assert!(broker.close_upstream(3).is_err());
    assert!(broker.close_downstream(3).is_err());
    assert!(broker.release(3).is_err());
    assert!(!broker.has_session(3));
}
