//! The invoke protocol: the request/response command channel between hosted
//! web content and native capabilities. A request names a method and carries
//! JSON arguments; the response carries one of three outcomes — a JSON value,
//! a binary blob, or an error message — with a result-kind marker header
//! distinct from the transport status.

use vstd::prelude::*;

use crate::assoc::AssocMap;
use crate::json::{parse_json, parsed_json, to_json_bytes, json_bytes, JsonValue};
use crate::text::{str_concat, str_eq, str_to_bytes, strip_slashes, trim_leading_slashes};
use vstd::string::StringExecFns;
use vstd::utf8::encode_utf8;

verus! {

/// The payload of a successful invoke outcome.
#[derive(Debug, PartialEq)]
pub enum InvokeResultData {
    Json(JsonValue),
    Binary(Vec<u8>),
}

/// The outcome of one invoke request: success with a JSON or binary payload,
/// or failure with a message.
#[derive(Debug, PartialEq)]
pub enum InvokeResult {
    Success(InvokeResultData),
    Failure(String),
}

impl InvokeResult {
    /// Whether this outcome is a success.
    pub open spec fn is_success(self) -> bool {
        match self {
            InvokeResult::Success(_) => true,
            InvokeResult::Failure(_) => false,
        }
    }

    /// A success payload is well formed when its JSON value is.
    pub open spec fn wf(self) -> bool {
        match self {
            InvokeResult::Success(InvokeResultData::Json(v)) => v.wf(),
            _ => true,
        }
    }

    pub fn is_ok(&self) -> (r: bool)
        ensures
            r == self.is_success(),
    {
        match self {
            InvokeResult::Success(_) => true,
            InvokeResult::Failure(_) => false,
        }
    }

    pub fn is_err(&self) -> (r: bool)
        ensures
            r == !self.is_success(),
    {
        !self.is_ok()
    }

    /// A success carrying a JSON value.
    pub fn json(data: JsonValue) -> (r: Self)
        ensures
            r == InvokeResult::Success(InvokeResultData::Json(data)),
    {
        InvokeResult::Success(InvokeResultData::Json(data))
    }

    /// A success carrying raw bytes.
    pub fn binary(data: Vec<u8>) -> (r: Self)
        ensures
            r == InvokeResult::Success(InvokeResultData::Binary(data)),
    {
        InvokeResult::Success(InvokeResultData::Binary(data))
    }

    /// A failure carrying a message.
    pub fn error(message: &str) -> (r: Self)
        ensures
            r matches InvokeResult::Failure(m) && m@ == message@,
    {
        InvokeResult::Failure(message.to_owned())
    }
}

/// The value of the result-kind marker header.
#[derive(Clone, Copy, Debug, PartialEq, Eq, Structural)]
pub enum ResultKind {
    OkMark,
    ErrMark,
}

impl ResultKind {
    /// The marker as it stands on the wire.
    pub fn as_str(&self) -> (r: &'static str)
        ensures
            *self == ResultKind::OkMark ==> r@ == "Ok"@,
            *self == ResultKind::ErrMark ==> r@ == "Err"@,
    {
        match self {
            ResultKind::OkMark => "Ok",
            ResultKind::ErrMark => "Err",
        }
    }
}

/// A response as the protocol hands it to the transport: the status code, the
/// result-kind marker header, the content type and the body. Every response
/// additionally carries permissive cross-origin headers, which are constant
/// and left to the transport layer.
#[derive(Debug, PartialEq)]
pub struct WireResponse {
    pub status: u16,
    pub result_header: ResultKind,
    pub content_type: String,
    pub body: Vec<u8>,
}

/// Whether the body spells a JSON string whose characters are `msg`.
pub open spec fn says_error(body: Seq<u8>, msg: Seq<char>) -> bool {
    match parsed_json(body) {
        Ok(JsonValue::Str(m)) => m@ == msg,
        _ => false,
    }
}

/// How a wire response decodes back into an invoke outcome.
pub open spec fn wire_decodes_to(
    marker: ResultKind,
    content_type: Seq<char>,
    body: Seq<u8>,
    res: InvokeResult,
) -> bool {
    match res {
        InvokeResult::Success(InvokeResultData::Json(v)) => marker == ResultKind::OkMark
            && content_type == "application/json"@ && parsed_json(body) == Ok::<
            JsonValue,
            Seq<char>,
        >(v),
        InvokeResult::Success(InvokeResultData::Binary(b)) => marker == ResultKind::OkMark
            && content_type == "application/octet-stream"@ && b@ == body,
        InvokeResult::Failure(m) => marker == ResultKind::ErrMark && content_type
            == "application/json"@ && says_error(body, m@),
    }
}

/// Two outcomes that one wire response decodes to carry the same payload: the
/// same JSON value, byte-for-byte the same blob, or the same message.
pub proof fn lemma_wire_decoding_unique(
    marker: ResultKind,
    content_type: Seq<char>,
    body: Seq<u8>,
    a: InvokeResult,
    b: InvokeResult,
)
    requires
        wire_decodes_to(marker, content_type, body, a),
        wire_decodes_to(marker, content_type, body, b),
    ensures
        match (a, b) {
            (
                InvokeResult::Success(InvokeResultData::Json(va)),
                InvokeResult::Success(InvokeResultData::Json(vb)),
            ) => va == vb,
            (
                InvokeResult::Success(InvokeResultData::Binary(ba)),
                InvokeResult::Success(InvokeResultData::Binary(bb)),
            ) => ba@ == bb@,
            (InvokeResult::Failure(ma), InvokeResult::Failure(mb)) => ma@ == mb@,
            _ => false,
        },
{
    reveal_strlit("application/json");
    reveal_strlit("application/octet-stream");
    assert("application/json"@ != "application/octet-stream"@) by {
        assert("application/json"@.len() != "application/octet-stream"@.len());
    }
}

/// Encodes an invoke outcome as a wire response, per the protocol: status 200
/// for every handler outcome, the marker naming the outcome kind, a JSON
/// content type for JSON and error payloads, an octet-stream content type for
/// binary payloads, and the error message JSON-encoded. A response built here
/// decodes back to the outcome it was built from.
pub fn encode_result(res: InvokeResult) -> (r: WireResponse)
    ensures
        r.status == 200,
        (r.result_header == ResultKind::OkMark) == res.is_success(),
        res.wf() ==> wire_decodes_to(r.result_header, r.content_type@, r.body@, res),
        match res {
            InvokeResult::Success(InvokeResultData::Json(v)) => r.content_type@
                == "application/json"@ && r.body@ == json_bytes(v),
            InvokeResult::Success(InvokeResultData::Binary(b)) => r.content_type@
                == "application/octet-stream"@ && r.body@ == b@,
            InvokeResult::Failure(m) => r.content_type@ == "application/json"@ && r.body@
                == json_bytes(JsonValue::Str(m)) && says_error(r.body@, m@),
        },
{
    match res {
        InvokeResult::Success(data) => match data {
            InvokeResultData::Json(v) => {
                let body = to_json_bytes(&v);
                WireResponse {
                    status: 200,
                    result_header: ResultKind::OkMark,
                    content_type: String::from_str("application/json"),
                    body,
                }
            },
            InvokeResultData::Binary(b) => WireResponse {
                status: 200,
                result_header: ResultKind::OkMark,
                content_type: String::from_str("application/octet-stream"),
                body: b,
            },
        },
        InvokeResult::Failure(m) => {
            let payload = JsonValue::Str(m);
            let body = to_json_bytes(&payload);
            WireResponse {
                status: 200,
                result_header: ResultKind::ErrMark,
                content_type: String::from_str("application/json"),
                body,
            }
        },
    }
}

/// Decodes a wire response back into an invoke outcome: `None` when no
/// outcome encodes to it.
pub fn decode_result(r: &WireResponse) -> (out: Option<InvokeResult>)
    ensures
        match out {
            Some(res) => wire_decodes_to(r.result_header, r.content_type@, r.body@, res),
            None => forall|res: InvokeResult|
                !wire_decodes_to(r.result_header, r.content_type@, r.body@, res),
        },
{
    match r.result_header {
        ResultKind::OkMark => {
            if str_eq(r.content_type.as_str(), "application/json") {
                match parse_json(r.body.as_slice()) {
                    Ok(v) => Some(InvokeResult::Success(InvokeResultData::Json(v))),
                    Err(_) => {
                        proof {
                            reveal_strlit("application/json");
                            reveal_strlit("application/octet-stream");
                            assert("application/json"@.len()
                                != "application/octet-stream"@.len());
                        }
                        None
                    },
                }
            } else if str_eq(r.content_type.as_str(), "application/octet-stream") {
                let mut body: Vec<u8> = Vec::new();
                body.extend_from_slice(r.body.as_slice());
                proof {
                    assert(body@ =~= r.body@);
                }
                Some(InvokeResult::Success(InvokeResultData::Binary(body)))
            } else {
                None
            }
        },
        ResultKind::ErrMark => {
            if str_eq(r.content_type.as_str(), "application/json") {
                match parse_json(r.body.as_slice()) {
                    Ok(JsonValue::Str(m)) => Some(InvokeResult::Failure(m)),
                    _ => None,
                }
            } else {
                None
            }
        },
    }
}

/// One decoded invoke command: the method name, its JSON arguments in order,
/// and the id of the originating window.
pub struct InvokeCommand {
    pub method: String,
    pub args: Vec<JsonValue>,
    pub window_id: u32,
}

/// A request as the transport hands it to the protocol: the wire target, the
/// address path, the originating window id — carried in a required header
/// whose parsing the protocol assumes of its trusted bridge — and the raw
/// body bytes.
pub struct InvokeRequest {
    pub host: String,
    pub path: String,
    pub window_id: u32,
    pub body: Vec<u8>,
}

/// What the protocol decided about one request: answer at once, or run the
/// named handler on the decoded command.
pub enum RouteOutcome<H> {
    Respond(WireResponse),
    Dispatch(H, InvokeCommand),
}

/// A protocol-level failure: status 400, the message JSON-encoded.
fn protocol_error(msg: String) -> (r: WireResponse)
    ensures
        r.status == 400,
        r.result_header == ResultKind::ErrMark,
        r.content_type@ == "application/json"@,
        says_error(r.body@, msg@),
{
    let payload = JsonValue::Str(msg);
    let body = to_json_bytes(&payload);
    WireResponse {
        status: 400,
        result_header: ResultKind::ErrMark,
        content_type: String::from_str("application/json"),
        body,
    }
}

/// Decodes one inbound request and resolves its handler. The wire target must
/// be the reserved target `invoke`; any other target is answered with status
/// 400 at once. A body that does not spell a JSON array is answered with
/// status 400 and the parse failure message, without touching the handler
/// table. The method name is the address path with its leading slashes
/// removed; a method with no registered handler is answered as a
/// handler-level error, status 200, naming the method. Otherwise the named
/// handler is to be run on the decoded command.
pub fn route<H: Copy>(handlers: &AssocMap<String, H>, req: InvokeRequest) -> (r: RouteOutcome<H>)
    requires
        handlers.inv(),
    ensures
        req.host@ != "invoke"@ ==> (r matches RouteOutcome::Respond(w) && w.status == 400
            && w.body@ == encode_utf8("Invalid host"@)),
        req.host@ == "invoke"@ ==> match parsed_json(req.body@) {
            Err(e) => r matches RouteOutcome::Respond(w) && w.status == 400 && w.result_header
                == ResultKind::ErrMark && w.content_type@ == "application/json"@ && says_error(
                w.body@,
                e,
            ),
            Ok(v) => match v {
                JsonValue::Arr(args) => {
                    let m = strip_slashes(req.path@);
                    if handlers@.dom().contains(m) {
                        r matches RouteOutcome::Dispatch(h, cmd) && h == handlers@[m]
                            && cmd.method@ == m && cmd.args == args && cmd.window_id
                            == req.window_id
                    } else {
                        r matches RouteOutcome::Respond(w) && w.status == 200 && w.result_header
                            == ResultKind::ErrMark && says_error(
                            w.body@,
                            "No handler found for method: "@ + m,
                        )
                    }
                },
                _ => r matches RouteOutcome::Respond(w) && w.status == 400 && w.result_header
                    == ResultKind::ErrMark && says_error(
                    w.body@,
                    "Request body must be a JSON array"@,
                ),
            },
        },
{
    if !str_eq(req.host.as_str(), "invoke") {
        let body = str_to_bytes("Invalid host");
        return RouteOutcome::Respond(
            WireResponse {
                status: 400,
                result_header: ResultKind::ErrMark,
                content_type: String::new(),
                body,
            },
        );
    }
    match parse_json(req.body.as_slice()) {
        Err(msg) => RouteOutcome::Respond(protocol_error(msg)),
        Ok(parsed) => match parsed {
            JsonValue::Arr(args) => {
                let method = trim_leading_slashes(req.path.as_str());
                match handlers.get(&method) {
                    Some(h) => {
                        let chosen = *h;
                        RouteOutcome::Dispatch(
                            chosen,
                            InvokeCommand { method, args, window_id: req.window_id },
                        )
                    },
                    None => {
                        let msg = str_concat("No handler found for method: ", method.as_str());
                        RouteOutcome::Respond(encode_result(InvokeResult::Failure(msg)))
                    },
                }
            },
            _ => RouteOutcome::Respond(
                protocol_error(String::from_str("Request body must be a JSON array")),
            ),
        },
    }
}

} // verus!
