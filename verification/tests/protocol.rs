use cookie_fetch::ipc::{
    handle_ipc_request, parse_request_path, IpcOutcome, RequestPath, STATUS_ACCEPTED,
    STATUS_BAD_REQUEST, STATUS_METHOD_NOT_ALLOWED, STATUS_NO_CONTENT, STATUS_OK, STATUS_TRY_AGAIN,
};
use cookie_fetch::session::{PopOutcome, SessionBroker};

fn reply_status(outcome: IpcOutcome) -> u16 {
    match outcome {
        IpcOutcome::Reply(r) => r.status,
        IpcOutcome::RetryPush(_) => panic!("expected a reply"),
    }
}

#[test]
fn request_paths_parse() {
    assert_eq!(parse_request_path("/3/push"), Some(RequestPath::Push(3)));
    assert_eq!(parse_request_path("/0/pop"), Some(RequestPath::Pop(0)));
    assert_eq!(
        parse_request_path("/12/close/upstream"),
        Some(RequestPath::CloseUpstream(12))
    );
    assert_eq!(
        parse_request_path("/5/close/downstream"),
        Some(RequestPath::CloseDownstream(5))
    );
    assert_eq!(parse_request_path("/007/pop"), Some(RequestPath::Pop(7)));
}

#[test]
fn malformed_paths_are_refused() {
    for path in [
        "",
        "/",
        "3/push",
        "/x/push",
        "/3",
        "/3/",
        "/3/nope",
        "/-1/push",
        "//push",
        "/18446744073709551616/push",
    ] {
        assert_eq!(parse_request_path(path), None, "path {:?} must be refused", path);
    }
}

#[test]
fn non_post_methods_are_refused() {
    let mut broker = SessionBroker::new();
    let id = broker.reserve();
    let outcome = handle_ipc_request(&mut broker, "GET", &format!("/{}/pop", id), Vec::new());
    assert_eq!(reply_status(outcome), STATUS_METHOD_NOT_ALLOWED);
}

#[test]
fn bad_paths_and_unknown_ids_are_client_errors() {
    let mut broker = SessionBroker::new();
    let outcome = handle_ipc_request(&mut broker, "POST", "/nope", Vec::new());
    assert_eq!(reply_status(outcome), STATUS_BAD_REQUEST);
    let outcome = handle_ipc_request(&mut broker, "POST", "/9/pop", Vec::new());
    assert_eq!(reply_status(outcome), STATUS_BAD_REQUEST);
}

#[test]
fn push_pop_and_close_through_the_protocol() {
    let mut broker = SessionBroker::new();
    let id = broker.reserve();
    assert_eq!(id, 0);

    // the sandbox pushes a piece of the request body
    let outcome = handle_ipc_request(&mut broker, "POST", "/0/push", b"hello".to_vec());
    assert_eq!(reply_status(outcome), STATUS_ACCEPTED);
    match broker.pop_upstream(id) {
        Ok(PopOutcome::Chunk(c)) => assert_eq!(c, b"hello".to_vec()),
        _ => panic!("the pushed chunk must be readable upstream"),
    }

    // nothing has arrived downstream yet
    let outcome = handle_ipc_request(&mut broker, "POST", "/0/pop", Vec::new());
    assert_eq!(reply_status(outcome), STATUS_TRY_AGAIN);

    // the drain task hands a response chunk over; the poller gets it
    broker.push_downstream(id, b"world".to_vec()).unwrap();
    match handle_ipc_request(&mut broker, "POST", "/0/pop", Vec::new()) {
        IpcOutcome::Reply(r) => {
            assert_eq!(r.status, STATUS_OK);
            assert_eq!(r.body, b"world".to_vec());
        },
        _ => panic!("expected a reply"),
    }

    // closing, then draining, reports the stream end
    let outcome = handle_ipc_request(&mut broker, "POST", "/0/close/downstream", Vec::new());
    assert_eq!(reply_status(outcome), STATUS_OK);
    let outcome = handle_ipc_request(&mut broker, "POST", "/0/pop", Vec::new());
    assert_eq!(reply_status(outcome), STATUS_NO_CONTENT);

    // closing upstream makes later pushes client errors
    let outcome = handle_ipc_request(&mut broker, "POST", "/0/close/upstream", Vec::new());
    assert_eq!(reply_status(outcome), STATUS_OK);
    let outcome = handle_ipc_request(&mut broker, "POST", "/0/push", b"late".to_vec());
    assert_eq!(reply_status(outcome), STATUS_BAD_REQUEST);
}

#[test]
fn full_upstream_asks_for_a_retry() {
    let mut broker = SessionBroker::new();
    let id = broker.reserve();
    for _ in 0..32 {
        let outcome = handle_ipc_request(&mut broker, "POST", "/0/push", vec![0u8]);
        assert_eq!(reply_status(outcome), STATUS_ACCEPTED);
    }
    match handle_ipc_request(&mut broker, "POST", "/0/push", b"again".to_vec()) {
        IpcOutcome::RetryPush(c) => assert_eq!(c, b"again".to_vec()),
        IpcOutcome::Reply(r) => panic!("expected backpressure, got status {}", r.status),
    }
    // room opens up once the transport reads a chunk
    broker.pop_upstream(id).unwrap();
    let outcome = handle_ipc_request(&mut broker, "POST", "/0/push", b"again".to_vec());
    assert_eq!(reply_status(outcome), STATUS_ACCEPTED);
}
