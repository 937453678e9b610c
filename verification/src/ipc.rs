//! The boundary wire protocol: path-addressed push/pop/close operations
//! against the session broker. The sandboxed caller can only issue
//! discrete POST requests, so every operation is one request naming a
//! session id in its path, answered with a status code, an optional
//! chunk, and a short message on errors.

use vstd::prelude::*;

use crate::session::{
    spec_has, spec_pop, spec_push, spec_close, PopView, PushView, SessionBroker, SessionModel,
    PopOutcome, PushOutcome,
};
use crate::text::{
    digits_val, is_usize_decimal, lemma_digits_val_nonneg, parse_usize, spec_find, str_eq,
    find_char, lemma_spec_find,
};

verus! {

/// A chunk is ready: its bytes form the response body.
pub const STATUS_OK: u16 = 200;

/// A pushed chunk was enqueued.
pub const STATUS_ACCEPTED: u16 = 202;

/// The downstream channel is closed and drained: the stream has ended.
pub const STATUS_NO_CONTENT: u16 = 204;

/// Nothing is buffered yet on a still-open channel: poll again later.
pub const STATUS_TRY_AGAIN: u16 = 100;

/// The request named an unknown session, a bad path, or a closed channel.
pub const STATUS_BAD_REQUEST: u16 = 400;

/// The request used a method other than POST.
pub const STATUS_METHOD_NOT_ALLOWED: u16 = 405;

/// One operation of the boundary protocol, addressed at a session.
#[derive(Debug, Clone, Copy, PartialEq, Eq, Structural)]
pub enum RequestPath {
    Push(usize),
    Pop(usize),
    CloseUpstream(usize),
    CloseDownstream(usize),
}

/// What `/{id}/{operation}` paths mean: a leading slash, a decimal
/// session id that fits in `usize`, another slash, and one of the four
/// operation names; anything else is malformed.
pub open spec fn spec_parse_path(s: Seq<char>) -> Option<RequestPath> {
    if s.len() == 0 || s[0] != '/' {
        None
    } else {
        match spec_find(s, 1, '/') {
            None => None,
            Some(k) => {
                let id_str = s.subrange(1, k);
                let rest = s.subrange(k + 1, s.len() as int);
                if !is_usize_decimal(id_str) {
                    None
                } else {
                    let id = digits_val(id_str) as usize;
                    if rest == "push"@ {
                        Some(RequestPath::Push(id))
                    } else if rest == "pop"@ {
                        Some(RequestPath::Pop(id))
                    } else if rest == "close/upstream"@ {
                        Some(RequestPath::CloseUpstream(id))
                    } else if rest == "close/downstream"@ {
                        Some(RequestPath::CloseDownstream(id))
                    } else {
                        None
                    }
                }
            },
        }
    }
}

/// Parses a request path, exactly as [`spec_parse_path`] reads it.
pub fn parse_request_path(s: &str) -> (r: Option<RequestPath>)
    ensures
        r == spec_parse_path(s@),
{
    let len = s.unicode_len();
    if len == 0 {
        return None;
    }
    if s.get_char(0) != '/' {
        return None;
    }
    let k = match find_char(s, 1, '/') {
        Some(k) => k,
        None => {
            return None;
        },
    };
    proof {
        lemma_spec_find(s@, 1, '/');
    }
    let id_part = s.substring_char(1, k);
    let rest = s.substring_char(k + 1, len);
    let id = match parse_usize(id_part) {
        Some(v) => v,
        None => {
            return None;
        },
    };
    proof {
        lemma_digits_val_nonneg(id_part@);
    }
    if str_eq(rest, "push") {
        Some(RequestPath::Push(id))
    } else if str_eq(rest, "pop") {
        Some(RequestPath::Pop(id))
    } else if str_eq(rest, "close/upstream") {
        Some(RequestPath::CloseUpstream(id))
    } else if str_eq(rest, "close/downstream") {
        Some(RequestPath::CloseDownstream(id))
    } else {
        None
    }
}

/// One answer of the protocol: a status code, the chunk bytes (only a
/// successful pop carries any), and a short message on errors.
pub struct IpcResponse {
    pub status: u16,
    pub body: Vec<u8>,
    pub message: String,
}

/// What the handler asks of its caller: answer the request, or hold a
/// chunk back because the upstream channel is full and retry the push
/// once there is room again: the protocol's only backpressure signal.
pub enum IpcOutcome {
    Reply(IpcResponse),
    RetryPush(Vec<u8>),
}

/// The mathematical value of an [`IpcOutcome`].
#[verifier::ext_equal]
pub enum IpcOutcomeView {
    Reply { status: u16, body: Seq<u8>, message: Seq<char> },
    RetryPush(Seq<u8>),
}

impl View for IpcOutcome {
    type V = IpcOutcomeView;

    open spec fn view(&self) -> IpcOutcomeView {
        match self {
            IpcOutcome::Reply(r) => IpcOutcomeView::Reply {
                status: r.status,
                body: r.body@,
                message: r.message@,
            },
            IpcOutcome::RetryPush(c) => IpcOutcomeView::RetryPush(c@),
        }
    }
}

/// A reply without a body.
pub open spec fn spec_note(status: u16, message: Seq<char>) -> IpcOutcomeView {
    IpcOutcomeView::Reply { status, body: Seq::empty(), message }
}

/// One request against the broker, as the handler must answer it:
/// non-POST methods and malformed paths are refused without touching
/// any session; an id without a live slot is a client error; otherwise
/// the named operation runs against the addressed channel, a full
/// upstream push becomes a retry, and a push onto a closed upstream
/// channel is a client error.
pub open spec fn spec_handle(
    slots: Seq<Option<SessionModel>>,
    method: Seq<char>,
    path: Seq<char>,
    body: Seq<u8>,
) -> (IpcOutcomeView, Seq<Option<SessionModel>>) {
    if method != "POST"@ {
        (spec_note(STATUS_METHOD_NOT_ALLOWED, "the request method must be POST"@), slots)
    } else {
        match spec_parse_path(path) {
            None => (spec_note(STATUS_BAD_REQUEST, "the request path is invalid"@), slots),
            Some(op) => {
                let id = op.id() as int;
                if !spec_has(slots, id) {
                    (spec_note(STATUS_BAD_REQUEST, "the session id is invalid"@), slots)
                } else {
                    let s = slots[id]->Some_0;
                    match op {
                        RequestPath::Push(_) => {
                            let (pr, c2) = spec_push(s.upstream, body);
                            match pr {
                                PushView::Accepted => (
                                    spec_note(STATUS_ACCEPTED, ""@),
                                    slots.update(id, Some(SessionModel { upstream: c2, ..s })),
                                ),
                                PushView::Full(chunk) => (IpcOutcomeView::RetryPush(chunk), slots),
                                PushView::Closed(_) => (
                                    spec_note(
                                        STATUS_BAD_REQUEST,
                                        "the upstream channel is closed"@,
                                    ),
                                    slots,
                                ),
                            }
                        },
                        RequestPath::Pop(_) => {
                            let (pr, c2) = spec_pop(s.downstream);
                            let slots2 = slots.update(
                                id,
                                Some(SessionModel { downstream: c2, ..s }),
                            );
                            match pr {
                                PopView::Chunk(chunk) => (
                                    IpcOutcomeView::Reply {
                                        status: STATUS_OK,
                                        body: chunk,
                                        message: Seq::empty(),
                                    },
                                    slots2,
                                ),
                                PopView::NoContentYet => (
                                    spec_note(STATUS_TRY_AGAIN, ""@),
                                    slots2,
                                ),
                                PopView::Ended => (
                                    spec_note(STATUS_NO_CONTENT, ""@),
                                    slots2,
                                ),
                            }
                        },
                        RequestPath::CloseUpstream(_) => (
                            spec_note(STATUS_OK, ""@),
                            slots.update(
                                id,
                                Some(SessionModel { upstream: spec_close(s.upstream), ..s }),
                            ),
                        ),
                        RequestPath::CloseDownstream(_) => (
                            spec_note(STATUS_OK, ""@),
                            slots.update(
                                id,
                                Some(SessionModel { downstream: spec_close(s.downstream), ..s }),
                            ),
                        ),
                    }
                }
            },
        }
    }
}

impl RequestPath {
    /// The session id the path addresses.
    pub open spec fn id(self) -> usize {
        match self {
            RequestPath::Push(id) => id,
            RequestPath::Pop(id) => id,
            RequestPath::CloseUpstream(id) => id,
            RequestPath::CloseDownstream(id) => id,
        }
    }
}

fn note(status: u16, message: &str) -> (r: IpcOutcome)
    ensures
        r@ == spec_note(status, message@),
{
    let r = IpcOutcome::Reply(
        IpcResponse { status, body: Vec::new(), message: String::from_str(message) },
    );
    proof {
        assert(r@ =~~= spec_note(status, message@));
    }
    r
}

/// Answers one request of the boundary protocol, exactly as
/// [`spec_handle`] reads it. The caller sends the reply back (adding
/// the permissive cross-origin header the sandboxed front-end needs),
/// or, on `RetryPush`, waits for room and pushes the chunk again.
pub fn handle_ipc_request(
    broker: &mut SessionBroker,
    method: &str,
    path: &str,
    body: Vec<u8>,
) -> (r: IpcOutcome)
    ensures
        (r@, final(broker)@) == spec_handle(old(broker)@, method@, path@, body@),
{
    if !str_eq(method, "POST") {
        return note(STATUS_METHOD_NOT_ALLOWED, "the request method must be POST");
    }
    let op = match parse_request_path(path) {
        Some(op) => op,
        None => {
            return note(STATUS_BAD_REQUEST, "the request path is invalid");
        },
    };
    match op {
        RequestPath::Push(id) => {
            match broker.push_upstream(id, body) {
                Err(_) => note(STATUS_BAD_REQUEST, "the session id is invalid"),
                Ok(PushOutcome::Accepted) => note(STATUS_ACCEPTED, ""),
                Ok(PushOutcome::Full(chunk)) => {
                    proof {
                        assert(broker@ =~~= old(broker)@);
                    }
                    IpcOutcome::RetryPush(chunk)
                },
                Ok(PushOutcome::Closed(_)) => {
                    proof {
                        assert(broker@ =~~= old(broker)@);
                    }
                    note(STATUS_BAD_REQUEST, "the upstream channel is closed")
                },
            }
        },
        RequestPath::Pop(id) => {
            match broker.pop_downstream(id) {
                Err(_) => note(STATUS_BAD_REQUEST, "the session id is invalid"),
                Ok(PopOutcome::Chunk(chunk)) => {
                    let r = IpcOutcome::Reply(
                        IpcResponse {
                            status: STATUS_OK,
                            body: chunk,
                            message: String::new(),
                        },
                    );
                    r
                },
                Ok(PopOutcome::NoContentYet) => note(STATUS_TRY_AGAIN, ""),
                Ok(PopOutcome::Ended) => note(STATUS_NO_CONTENT, ""),
            }
        },
        RequestPath::CloseUpstream(id) => {
            match broker.close_upstream(id) {
                Err(_) => note(STATUS_BAD_REQUEST, "the session id is invalid"),
                Ok(()) => note(STATUS_OK, ""),
            }
        },
        RequestPath::CloseDownstream(id) => {
            match broker.close_downstream(id) {
                Err(_) => note(STATUS_BAD_REQUEST, "the session id is invalid"),
                Ok(()) => note(STATUS_OK, ""),
            }
        },
    }
}

} // verus!
