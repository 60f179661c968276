//! Request/response messages of the maintenance-tool channel, their wire
//! codecs, and the classification of a ping exchange.

use vstd::prelude::*;

use crate::channel::{IoKind, IpcError};
use crate::json::quote_str;
use crate::scan::{
    lemma_concat_extract, lemma_scan_nested_over_quoted, lemma_scan_nested_over_string,
    lemma_scan_nested_plain_run, lemma_scan_string_lit, scan_nested, scan_value, wf_unit,
};
use crate::api::{expect_lit, expect_lit_at, parse_quoted, parse_quoted_at, parse_str_field};

verus! {

/// Requests a client sends to the worker.
#[derive(Clone, Copy, PartialEq, Eq, Structural, Debug)]
pub enum Request {
    /// Tests the connection.
    Ping,
}

/// Responses the worker sends back.
pub enum Response {
    /// Reply to a ping.
    Pong,
    /// An error report.
    Error { message: String },
}

/// Mathematical shape of a [`Response`].
pub enum ResponseShape {
    Pong,
    Error { message: Seq<char> },
}

impl View for Response {
    type V = ResponseShape;

    open spec fn view(&self) -> ResponseShape {
        match self {
            Response::Pong => ResponseShape::Pong,
            Response::Error { message } => ResponseShape::Error { message: message@ },
        }
    }
}

/// Wire text of a [`Request`].
pub open spec fn encode_request_spec(m: Request) -> Seq<char> {
    "{\"type\":\"Ping\"}"@
}

/// Wire text of a [`Response`].
pub open spec fn encode_response_spec(m: ResponseShape) -> Seq<char> {
    match m {
        ResponseShape::Pong => "{\"type\":\"Pong\"}"@,
        ResponseShape::Error { message } => "{\"type\":\"Error\",\"message\":"@ + quote_str(
            message,
        ) + "}"@,
    }
}

/// The wire unit of a [`Request`].
pub fn encode_request(m: &Request) -> (r: Vec<char>)
    ensures
        r@ == encode_request_spec(*m),
{
    let mut out: Vec<char> = Vec::new();
    crate::text::push_chars(&mut out, "{\"type\":\"Ping\"}");
    proof {
        assert(out@ =~= encode_request_spec(*m));
    }
    out
}

/// The wire unit of a [`Response`].
pub fn encode_response(m: &Response) -> (r: Vec<char>)
    ensures
        r@ == encode_response_spec(m@),
{
    let mut out: Vec<char> = Vec::new();
    match m {
        Response::Pong => {
            crate::text::push_chars(&mut out, "{\"type\":\"Pong\"}");
        },
        Response::Error { message } => {
            crate::text::push_chars(&mut out, "{\"type\":\"Error\",\"message\":");
            crate::json::push_quoted_str(&mut out, message.as_str());
            crate::text::push_chars(&mut out, "}");
        },
    }
    proof {
        assert(out@ =~= encode_response_spec(m@));
    }
    out
}

/// The request a unit decodes to.
pub open spec fn decode_request_spec(u: Seq<char>) -> Option<Request> {
    if u == "{\"type\":\"Ping\"}"@ {
        Some(Request::Ping)
    } else {
        None
    }
}

/// The response a unit decodes to.
pub open spec fn decode_response_spec(u: Seq<char>) -> Option<ResponseShape> {
    if u == "{\"type\":\"Pong\"}"@ {
        Some(ResponseShape::Pong)
    } else {
        match parse_str_field(u, 0, "{\"type\":\"Error\",\"message\":"@) {
            Some((message, j)) => match expect_lit(u, j, "}"@) {
                Some(end) => if end == u.len() {
                    Some(ResponseShape::Error { message })
                } else {
                    None
                },
                None => None,
            },
            None => None,
        }
    }
}

/// Whether the unit is exactly the text of `lit`.
fn unit_is_lit(u: &[char], lit: &str) -> (r: bool)
    ensures
        r == (u@ == lit@),
{
    if u.len() == lit.unicode_len() && starts_with_lit(u, lit) {
        proof {
            assert(u@.subrange(0, u@.len() as int) =~= u@);
        }
        true
    } else {
        proof {
            if u@ == lit@ {
                assert(u@.subrange(0, lit@.len() as int) =~= lit@);
            }
        }
        false
    }
}

/// Whether the unit starts with the text of `lit`.
fn starts_with_lit(u: &[char], lit: &str) -> (r: bool)
    ensures
        r == (lit@.len() <= u@.len() && u@.subrange(0, lit@.len() as int) == lit@),
{
    crate::text::starts_with_str(u, 0, lit)
}

/// Decodes one unit as a [`Request`].
pub fn decode_request(u: &[char]) -> (r: Option<Request>)
    ensures
        r == decode_request_spec(u@),
{
    if unit_is_lit(u, "{\"type\":\"Ping\"}") {
        Some(Request::Ping)
    } else {
        None
    }
}

/// Decodes one unit as a [`Response`].
pub fn decode_response(u: &[char]) -> (r: Option<Response>)
    ensures
        match r {
            Some(m) => decode_response_spec(u@) == Some(m@),
            None => decode_response_spec(u@) is None,
        },
{
    if unit_is_lit(u, "{\"type\":\"Pong\"}") {
        Some(Response::Pong)
    } else {
        match expect_lit_at(u, 0, "{\"type\":\"Error\",\"message\":") {
            Some(j) => match parse_quoted_at(u, j) {
                Some((message, j2)) => match expect_lit_at(u, j2, "}") {
                    Some(end) => if end == u.len() {
                        Some(Response::Error { message })
                    } else {
                        None
                    },
                    None => None,
                },
                None => None,
            },
            None => None,
        }
    }
}

/// What a ping exchange reports, given the first decoded response (or the
/// stream having ended before one arrived): a pong is success, an error
/// report is a transport error, no response means the peer closed.
pub fn classify_ping_response(first: &Option<Response>) -> (r: Result<(), IpcError>)
    ensures
        match first {
            Some(Response::Pong) => r == Ok::<(), IpcError>(()),
            Some(Response::Error { .. }) => r == Err::<(), IpcError>(IpcError::Io(IoKind::Other)),
            None => r == Err::<(), IpcError>(IpcError::ConnectionClosed),
        },
{
    match first {
        Some(Response::Pong) => Ok(()),
        Some(Response::Error { .. }) => Err(IpcError::Io(IoKind::Other)),
        None => Err(IpcError::ConnectionClosed),
    }
}

/// A constant object unit of the form `{"type":"Name"}` is one complete
/// self-delimiting unit.  `q1`/`q2` are the quote positions of the first
/// string, `q3`/`q4` of the second; the closer sits at `len - 1`.
proof fn lemma_wf_tag_object(u: Seq<char>, q2: int, q4: int)
    requires
        u.len() >= 7,
        u[0] == '{',
        u[1] == '"',
        2 < q2 < q2 + 2 < q4 < u.len() - 1,
        u[q2] == '"',
        u[q2 + 1] == ':',
        u[q2 + 2] == '"',
        u[q4] == '"',
        u[u.len() - 1] == '}',
        q4 == u.len() - 2,
        forall|k: int| 2 <= k < q2 ==> u[k] != '"' && #[trigger] u[k] != '\\',
        forall|k: int| q2 + 3 <= k < q4 ==> u[k] != '"' && #[trigger] u[k] != '\\',
    ensures
        scan_value(u, 0) == Some(u.len() as int),
{
    assert(scan_value(u, 0) == scan_nested(u, 1, 1));
    lemma_scan_string_lit(u, 2, q2);
    lemma_scan_nested_over_string(u, 1, q2 + 1, 1);
    assert(crate::scan::plain_char(u[q2 + 1]));
    lemma_scan_nested_plain_run(u, q2 + 1, q2 + 2, 1);
    lemma_scan_string_lit(u, q2 + 3, q4);
    lemma_scan_nested_over_string(u, q2 + 2, q4 + 1, 1);
    assert(scan_nested(u, u.len() - 1, 1) == Some(u.len() as int));
}

/// Every canonical [`Request`] encoding is one complete unit.
pub proof fn lemma_wf_encode_request(m: Request)
    ensures
        wf_unit(encode_request_spec(m)),
{
    let u = encode_request_spec(m);
    reveal_strlit("{\"type\":\"Ping\"}");
    assert(u.len() == 15);
    lemma_wf_tag_object(u, 6, 13);
}

/// Every canonical [`Response`] encoding is one complete unit.
#[verifier::rlimit(100)]
#[verifier::spinoff_prover]
pub proof fn lemma_wf_encode_response(m: ResponseShape)
    ensures
        wf_unit(encode_response_spec(m)),
{
    let u = encode_response_spec(m);
    match m {
        ResponseShape::Pong => {
            reveal_strlit("{\"type\":\"Pong\"}");
            assert(u.len() == 15);
            lemma_wf_tag_object(u, 6, 13);
        },
        ResponseShape::Error { message } => {
            reveal_strlit("{\"type\":\"Error\",\"message\":");
            reveal_strlit("}");
            let le = "{\"type\":\"Error\",\"message\":"@;
            let q = quote_str(message);
            let x2 = le + q;
            assert(u == x2 + "}"@);
            assert(u.subrange(0, u.len() as int) =~= u);
            lemma_concat_extract(u, 0, x2, "}"@);
            lemma_concat_extract(u, 0, le, q);
            assert(le.len() == 26);
            assert forall|k: int| 0 <= k < 26 implies u[k] == le[k] by {
                assert(u.subrange(0, le.len() as int)[k] == le[k]);
            }
            assert(u[0] == '{');
            assert(scan_value(u, 0) == scan_nested(u, 1, 1));
            assert(u[1] == '"');
            assert forall|k: int| 2 <= k < 6 implies u[k] != '"' && #[trigger] u[k]
                != '\\' by {
                assert(u[k] == le[k]);
            }
            assert(u[6] == '"');
            lemma_scan_string_lit(u, 2, 6);
            lemma_scan_nested_over_string(u, 1, 7, 1);
            assert(crate::scan::plain_char(u[7]));
            lemma_scan_nested_plain_run(u, 7, 8, 1);
            assert(u[8] == '"');
            assert forall|k: int| 9 <= k < 14 implies u[k] != '"' && #[trigger] u[k]
                != '\\' by {
                assert(u[k] == le[k]);
            }
            assert(u[14] == '"');
            lemma_scan_string_lit(u, 9, 14);
            lemma_scan_nested_over_string(u, 8, 15, 1);
            assert(crate::scan::plain_char(u[15]));
            lemma_scan_nested_plain_run(u, 15, 16, 1);
            assert(u[16] == '"');
            assert forall|k: int| 17 <= k < 24 implies u[k] != '"' && #[trigger] u[k]
                != '\\' by {
                assert(u[k] == le[k]);
            }
            assert(u[24] == '"');
            lemma_scan_string_lit(u, 17, 24);
            lemma_scan_nested_over_string(u, 16, 25, 1);
            assert(crate::scan::plain_char(u[25]));
            lemma_scan_nested_plain_run(u, 25, 26, 1);
            lemma_scan_nested_over_quoted(u, 26, message, 1);
            assert(u.subrange(x2.len() as int, u.len() as int)[0] == '}');
            assert(u[x2.len() as int] == '}');
            assert(scan_nested(u, x2.len() as int, 1) == Some(u.len() as int));
        },
    }
}

/// Decoding inverts encoding for requests.
pub proof fn lemma_request_round_trip(m: Request)
    ensures
        decode_request_spec(encode_request_spec(m)) == Some(m),
{
}

/// Decoding inverts encoding for responses.
#[verifier::rlimit(100)]
#[verifier::spinoff_prover]
pub proof fn lemma_response_round_trip(m: ResponseShape)
    ensures
        decode_response_spec(encode_response_spec(m)) == Some(m),
{
    let u = encode_response_spec(m);
    match m {
        ResponseShape::Pong => {},
        ResponseShape::Error { message } => {
            reveal_strlit("{\"type\":\"Error\",\"message\":");
            reveal_strlit("{\"type\":\"Pong\"}");
            reveal_strlit("}");
            let le = "{\"type\":\"Error\",\"message\":"@;
            let q = quote_str(message);
            let x2 = le + q;
            assert(u == x2 + "}"@);
            assert(u.len() >= 29);
            assert(u != "{\"type\":\"Pong\"}"@);
            assert(u.subrange(0, u.len() as int) =~= u);
            lemma_concat_extract(u, 0, x2, "}"@);
            lemma_concat_extract(u, 0, le, q);
            assert(expect_lit(u, 0, le) == Some(le.len() as int));
            crate::json::lemma_parse_quoted_sub(u, le.len() as int, message);
            assert(expect_lit(u, x2.len() as int, "}"@) == Some(u.len() as int));
        },
    }
}

/// Pulls and decodes the next request; a malformed unit yields an explicit
/// error element and leaves the decoder usable.
pub fn next_request(it: &mut crate::channel::IpcMessageIterator) -> (r: crate::channel::Step<
    Request,
>)
    ensures
        ({
            let before = crate::scan::units_of(old(it).remaining());
            match r {
                crate::channel::Step::Msg(m) => before.len() > 0 && decode_request_spec(before[0])
                    == Some(m) && crate::scan::units_of(final(it).remaining())
                    == before.drop_first() && !final(it).terminal(),
                crate::channel::Step::Bad(e) => before.len() > 0 && decode_request_spec(before[0])
                    is None && e == IpcError::Json && crate::scan::units_of(
                    final(it).remaining(),
                ) == before.drop_first() && final(it).terminal() == old(it).terminal(),
                crate::channel::Step::NeedMore => !old(it).terminal() && !old(it).stream_ended()
                    && *final(it) == *old(it) && before.len() == 0,
                crate::channel::Step::End => (old(it).terminal() && *final(it) == *old(it)) || (
                !old(it).terminal() && old(it).stream_ended() && before.len() == 0 && final(it).terminal() && final(it).remaining() == old(it).remaining()),
            }
        }),
{
    match it.next_unit() {
        crate::channel::UnitStep::Item(u) => match decode_request(u.as_slice()) {
            Some(m) => crate::channel::Step::Msg(m),
            None => crate::channel::Step::Bad(IpcError::Json),
        },
        crate::channel::UnitStep::NeedMore => crate::channel::Step::NeedMore,
        crate::channel::UnitStep::End => crate::channel::Step::End,
    }
}

/// Pulls and decodes the next response; see [`next_request`].
pub fn next_response(it: &mut crate::channel::IpcMessageIterator) -> (r: crate::channel::Step<
    Response,
>)
    ensures
        ({
            let before = crate::scan::units_of(old(it).remaining());
            match r {
                crate::channel::Step::Msg(m) => before.len() > 0 && decode_response_spec(
                    before[0],
                ) == Some(m@) && crate::scan::units_of(final(it).remaining())
                    == before.drop_first() && !final(it).terminal(),
                crate::channel::Step::Bad(e) => before.len() > 0 && decode_response_spec(
                    before[0],
                ) is None && e == IpcError::Json && crate::scan::units_of(final(it).remaining())
                    == before.drop_first() && final(it).terminal() == old(it).terminal(),
                crate::channel::Step::NeedMore => !old(it).terminal() && !old(it).stream_ended()
                    && *final(it) == *old(it) && before.len() == 0,
                crate::channel::Step::End => (old(it).terminal() && *final(it) == *old(it)) || (
                !old(it).terminal() && old(it).stream_ended() && before.len() == 0 && final(it).terminal() && final(it).remaining() == old(it).remaining()),
            }
        }),
{
    match it.next_unit() {
        crate::channel::UnitStep::Item(u) => match decode_response(u.as_slice()) {
            Some(m) => crate::channel::Step::Msg(m),
            None => crate::channel::Step::Bad(IpcError::Json),
        },
        crate::channel::UnitStep::NeedMore => crate::channel::Step::NeedMore,
        crate::channel::UnitStep::End => crate::channel::Step::End,
    }
}

/// The wire units of a sequence of responses.
pub open spec fn encode_all_response(ms: Seq<ResponseShape>) -> Seq<Seq<char>> {
    ms.map_values(|m: ResponseShape| encode_response_spec(m))
}

/// Sending any number of responses back to back delivers exactly those
/// responses, in order, to the peer's decoder; the sequence ends when the
/// stream does.
pub proof fn lemma_response_stream_exact(ms: Seq<ResponseShape>)
    ensures
        crate::scan::units_of(crate::scan::concat_all(encode_all_response(ms)))
            == encode_all_response(ms),
        forall|k: int|
            0 <= k < ms.len() ==> decode_response_spec(#[trigger] encode_all_response(ms)[k])
                == Some(ms[k]),
{
    let us = encode_all_response(ms);
    assert forall|k: int| 0 <= k < us.len() implies wf_unit(#[trigger] us[k]) by {
        lemma_wf_encode_response(ms[k]);
    }
    crate::scan::lemma_units_of_concat(us);
    assert forall|k: int| 0 <= k < ms.len() implies decode_response_spec(
        #[trigger] encode_all_response(ms)[k],
    ) == Some(ms[k]) by {
        lemma_response_round_trip(ms[k]);
    }
}

/// The wire units of a sequence of requests.
pub open spec fn encode_all_request(ms: Seq<Request>) -> Seq<Seq<char>> {
    ms.map_values(|m: Request| encode_request_spec(m))
}

/// Sending any number of requests back to back delivers exactly those
/// requests, in order, to the peer's decoder.
pub proof fn lemma_request_stream_exact(ms: Seq<Request>)
    ensures
        crate::scan::units_of(crate::scan::concat_all(encode_all_request(ms)))
            == encode_all_request(ms),
        forall|k: int|
            0 <= k < ms.len() ==> decode_request_spec(#[trigger] encode_all_request(ms)[k])
                == Some(ms[k]),
{
    let us = encode_all_request(ms);
    assert forall|k: int| 0 <= k < us.len() implies wf_unit(#[trigger] us[k]) by {
        lemma_wf_encode_request(ms[k]);
    }
    crate::scan::lemma_units_of_concat(us);
}

} // verus!
