//! Requests and replies: newline-delimited JSON-RPC, and who is calling.
use crate::devices::device_check;
use crate::error::{error_text, KernelError, KernelErrorView};
use crate::json::{
    field, named, number_field, number_json, number_to_json, text_field, with_names, Fields, Json,
    JsonView,
};
use crate::kernel::{KernelView, RealKernel};
use crate::labels::{Clearance, Scope};
use crate::model::{all, opt, Duplicate};
use crate::outside::{ed25519_accepts, hex_decode, is_hex, unhex, utf8_text};
use crate::presence::{array_of_64, presence_message, PresenceProof, PresenceProofView};
use crate::principal::{Ctx, CtxView, Principal, PrincipalView};
use crate::reading::left_out;
use crate::text::{cat, decimal, decimal_text, same};
use vstd::prelude::*;
use vstd::utf8::{decode_utf8, valid_utf8};

verus! {

/// An invariant, a stop, a lock or a gate refused the call.
pub const E_INVARIANT: i32 = -32001;

/// What the call names is not there.
pub const E_NOT_FOUND: i32 = -32004;

/// A read or a write failed.
pub const E_STORE: i32 = -32005;

/// The arch is still starting; the call may be sent again.
pub const E_RETRY: i32 = -32006;

/// There is no such method.
pub const E_METHOD: i32 = -32601;

/// The parameters are not those of the method.
pub const E_BAD_PARAMS: i32 = -32602;

/// No answer could be made.
pub const E_INTERNAL: i32 = -32603;

/// The longest line of a request.
pub const MAX_LINE: usize = 1_048_576;

/// Why a call was refused.
#[derive(Debug)]
pub struct RpcError {
    pub code: i32,
    pub message: String,
}

/// What an [`RpcError`] says.
#[verifier::ext_equal]
pub struct RpcErrorView {
    pub code: i32,
    pub message: Seq<char>,
}

impl View for RpcError {
    type V = RpcErrorView;

    open spec fn view(&self) -> RpcErrorView {
        RpcErrorView { code: self.code, message: self.message@ }
    }
}

impl Duplicate for RpcError {
    fn dup(&self) -> (r: Self) {
        RpcError { code: self.code, message: self.message.dup() }
    }
}

/// One call.
#[derive(Debug)]
pub struct Request {
    pub id: u64,
    pub method: String,
    pub params: Json,
    /// A proof that a person is there, where there is one.
    pub presence: Option<PresenceProof>,
}

/// What a [`Request`] says.
pub struct RequestView {
    pub id: u64,
    pub method: Seq<char>,
    pub params: JsonView,
    pub presence: Option<PresenceProofView>,
}

impl View for Request {
    type V = RequestView;

    open spec fn view(&self) -> RequestView {
        RequestView {
            id: self.id,
            method: self.method@,
            params: self.params@,
            presence: opt(self.presence),
        }
    }
}

/// The answer to one call.
#[derive(Debug)]
pub struct Response {
    pub id: u64,
    pub result: Option<Json>,
    pub error: Option<RpcError>,
}

/// What a [`Response`] says.
pub struct ResponseView {
    pub id: u64,
    pub result: Option<JsonView>,
    pub error: Option<RpcErrorView>,
}

impl View for Response {
    type V = ResponseView;

    open spec fn view(&self) -> ResponseView {
        ResponseView { id: self.id, result: opt(self.result), error: opt(self.error) }
    }
}

/// What a result says.
pub open spec fn rpc_outcome<T: View>(r: Result<T, RpcError>) -> Result<T::V, RpcErrorView> {
    match r {
        Ok(t) => Ok(t@),
        Err(e) => Err(e@),
    }
}

/// What a result without a value says.
pub open spec fn rpc_done(r: Result<(), RpcError>) -> Result<(), RpcErrorView> {
    match r {
        Ok(()) => Ok(()),
        Err(e) => Err(e@),
    }
}

/// Answer a call: with its result, or with why there is none.
pub fn reply(id: u64, outcome: Result<Json, RpcError>) -> (r: Response)
    ensures
        r@ == (match rpc_outcome(outcome) {
            Ok(v) => ResponseView { id, result: Some(v), error: None },
            Err(e) => ResponseView { id, result: None, error: Some(e) },
        }),
{
    match outcome {
        Ok(v) => Response { id, result: Some(v), error: None },
        Err(e) => Response { id, result: None, error: Some(e) },
    }
}

/// The parameters are not those of the method.
pub open spec fn bad_params(message: Seq<char>) -> RpcErrorView {
    RpcErrorView { code: E_BAD_PARAMS, message }
}

/// The parameters are not those of the method.
pub fn bad(msg: &str) -> (r: RpcError)
    ensures
        r@ == bad_params(msg@),
{
    RpcError { code: E_BAD_PARAMS, message: msg.to_owned() }
}

/// Answer a line that is no request: nothing is known of its number.
pub fn not_a_request(why: &str) -> (r: Response)
    ensures
        r@ == (ResponseView {
            id: 0,
            result: None,
            error: Some(bad_params("not a request: "@ + why@)),
        }),
{
    let s = cat("not a request: ", why);
    reply(0, Err(bad(s.as_str())))
}

/// An invariant refused the call.
pub open spec fn against_invariant(message: Seq<char>) -> RpcErrorView {
    RpcErrorView { code: E_INVARIANT, message }
}

/// An invariant refused the call.
pub fn invariant_error(msg: &str) -> (r: RpcError)
    ensures
        r@ == against_invariant(msg@),
{
    RpcError { code: E_INVARIANT, message: msg.to_owned() }
}

/// What the call names is not there.
pub open spec fn nothing_found(what: Seq<char>) -> RpcErrorView {
    RpcErrorView { code: E_NOT_FOUND, message: "not found: "@ + what }
}

/// What the call names is not there.
pub fn not_found(what: &str) -> (r: RpcError)
    ensures
        r@ == nothing_found(what@),
{
    RpcError { code: E_NOT_FOUND, message: cat("not found: ", what) }
}

/// No answer could be made.
pub fn internal(msg: &str) -> (r: RpcError)
    ensures
        r@ == (RpcErrorView { code: E_INTERNAL, message: msg@ }),
{
    RpcError { code: E_INTERNAL, message: msg.to_owned() }
}

/// The code for a refusal of the kernel.
pub open spec fn code_of(e: KernelErrorView) -> i32 {
    match e {
        KernelErrorView::NotFound(_) => E_NOT_FOUND,
        KernelErrorView::ArchUnavailable(_) => E_STORE,
        KernelErrorView::Store(_) => E_STORE,
        KernelErrorView::ArchStarting(_) => E_RETRY,
        _ => E_INVARIANT,
    }
}

/// A refusal of the kernel, as the caller is told of it.
pub open spec fn told(e: KernelErrorView) -> RpcErrorView {
    RpcErrorView { code: code_of(e), message: error_text(e) }
}

/// A refusal of the kernel, as the caller is told of it.
pub fn kerr(e: &KernelError) -> (r: RpcError)
    ensures
        r@ == told(e@),
{
    let code = match e {
        KernelError::NotFound(_) => E_NOT_FOUND,
        KernelError::ArchUnavailable(_) | KernelError::Store(_) => E_STORE,
        KernelError::ArchStarting(_) => E_RETRY,
        _ => E_INVARIANT,
    };
    RpcError { code, message: e.text() }
}

/// What the bytes up to the end of a line say: nothing at the end of the stream, a
/// line, or why they are none.
pub open spec fn line_of(buf: Seq<u8>) -> Result<Option<Seq<char>>, Seq<char>> {
    if buf.len() == 0 {
        Ok(None)
    } else if buf.last() != 10u8 {
        if buf.len() > MAX_LINE {
            Err("line too long"@)
        } else {
            Err("connection closed mid-line"@)
        }
    } else {
        let cut = buf.drop_last();
        let line = if cut.len() > 0 && cut.last() == 13u8 {
            cut.drop_last()
        } else {
            cut
        };
        if valid_utf8(line) {
            Ok(Some(decode_utf8(line)))
        } else {
            Err("line is not utf-8"@)
        }
    }
}

/// What the bytes up to the end of a line say. They were read up to and with a line
/// feed, and no more than one past the longest line.
pub fn read_line(buf: Vec<u8>) -> (r: Result<Option<String>, String>)
    ensures
        match r {
            Ok(line) => line_of(buf@) == Ok::<Option<Seq<char>>, Seq<char>>(opt(line)),
            Err(why) => line_of(buf@) == Err::<Option<Seq<char>>, Seq<char>>(why@),
        },
{
    let mut line = buf;
    let n: usize = line.len();
    if n == 0 {
        return Ok(None);
    }
    if line[n - 1] != 10u8 {
        return if n > MAX_LINE {
            Err("line too long".to_owned())
        } else {
            Err("connection closed mid-line".to_owned())
        };
    }
    let _ = line.pop();
    assert(line@ =~= buf@.drop_last());
    let m: usize = line.len();
    if m > 0 && line[m - 1] == 13u8 {
        let _ = line.pop();
        assert(line@ =~= buf@.drop_last().drop_last());
    }
    match utf8_text(line.as_slice()) {
        Some(s) => Ok(Some(s)),
        None => Err("line is not utf-8".to_owned()),
    }
}

/// The names of what a proof has, in their order.
pub open spec fn proof_names() -> Seq<Seq<char>> {
    seq!["device_id"@, "nonce"@, "signature_hex"@]
}

/// The proof that an object is.
pub open spec fn proof_of(p: JsonView) -> Result<Option<PresenceProofView>, ()> {
    match (
        text_field(p, "device_id"@),
        text_field(p, "nonce"@),
        text_field(p, "signature_hex"@),
    ) {
        (Some(device_id), Some(nonce), Some(signature_hex)) => Ok(
            Some(PresenceProofView { device_id, nonce, signature_hex }),
        ),
        _ => Err(()),
    }
}

/// The proof that a request carries: none where it is absent or null.
pub open spec fn presence_in(v: JsonView) -> Result<Option<PresenceProofView>, ()> {
    match field(v, "presence"@) {
        None => Ok(None),
        Some(JsonView::Null) => Ok(None),
        Some(p) => proof_of(named(p, proof_names(), 3)),
    }
}

/// The names of what a request has, in their order.
pub open spec fn request_names() -> Seq<Seq<char>> {
    seq!["jsonrpc"@, "id"@, "method"@, "params"@, "presence"@]
}

/// The request that a value is, if it is one.
pub open spec fn request_in(v: JsonView) -> Option<RequestView> {
    request_of(named(v, request_names(), 3))
}

/// The request that an object is.
pub open spec fn request_of(v: JsonView) -> Option<RequestView> {
    match (
        text_field(v, "jsonrpc"@),
        number_field(v, "id"@),
        text_field(v, "method"@),
        presence_in(v),
    ) {
        (Some(_), Some(id), Some(method), Ok(presence)) => Some(
            RequestView {
                id: id as u64,
                method,
                params: match field(v, "params"@) {
                    Some(p) => p,
                    None => JsonView::Null,
                },
                presence,
            },
        ),
        _ => None,
    }
}

fn read_presence(v: &Json) -> (r: Result<Option<PresenceProof>, ()>)
    ensures
        match r {
            Ok(p) => presence_in(v@) == Ok::<Option<PresenceProofView>, ()>(opt(p)),
            Err(()) => presence_in(v@) is Err,
        },
{
    match v.get("presence") {
        None => Ok(None),
        Some(p) => {
            if let Json::Null = p {
                return Ok(None);
            }
            if let Json::Array(_) = p {
                let names = vec!["device_id", "nonce", "signature_hex"];
                assert(all(names@) =~= proof_names());
                let parts = with_names(p, &names, 3);
                return read_proof(&parts);
            }
            read_proof(p)
        },
    }
}

fn read_proof(p: &Json) -> (r: Result<Option<PresenceProof>, ()>)
    ensures
        match r {
            Ok(x) => proof_of(p@) == Ok::<Option<PresenceProofView>, ()>(opt(x)),
            Err(()) => proof_of(p@) is Err,
        },
{
    match (p.text_at("device_id"), p.text_at("nonce"), p.text_at("signature_hex")) {
        (Some(d), Some(n), Some(s)) => Ok(
            Some(
                PresenceProof { device_id: d.dup(), nonce: n.dup(), signature_hex: s.dup() },
            ),
        ),
        _ => Err(()),
    }
}

/// The request that a value is, if it is one.
pub fn read_request(v: &Json) -> (r: Option<Request>)
    ensures
        opt(r) == request_in(v@),
{
    if let Json::Array(_) = v {
        let names = vec!["jsonrpc", "id", "method", "params", "presence"];
        assert(all(names@) =~= request_names());
        let parts = with_names(v, &names, 3);
        return read_request_object(&parts);
    }
    read_request_object(v)
}

fn read_request_object(v: &Json) -> (r: Option<Request>)
    ensures
        opt(r) == request_of(v@),
{
    let presence = match read_presence(v) {
        Ok(p) => p,
        Err(()) => return None,
    };
    match (v.text_at("jsonrpc"), v.number_at("id"), v.text_at("method")) {
        (Some(_), Some(id), Some(method)) => {
            let params = match v.get("params") {
                Some(p) => p.copy(),
                None => Json::Null,
            };
            Some(Request { id, method: method.dup(), params, presence })
        },
        _ => None,
    }
}

/// A proof, as a request has it.
pub open spec fn presence_json(p: Option<PresenceProofView>) -> JsonView {
    match p {
        None => JsonView::Null,
        Some(p) => JsonView::Object(
            seq![
                ("device_id"@, JsonView::Text(p.device_id)),
                ("nonce"@, JsonView::Text(p.nonce)),
                ("signature_hex"@, JsonView::Text(p.signature_hex)),
            ],
        ),
    }
}

/// A request, as it is sent.
pub open spec fn request_json(r: RequestView) -> JsonView {
    JsonView::Object(
        seq![
            ("jsonrpc"@, JsonView::Text("2.0"@)),
            ("id"@, JsonView::Unsigned(r.id as nat)),
            ("method"@, JsonView::Text(r.method)),
            ("params"@, r.params),
            ("presence"@, presence_json(r.presence)),
        ],
    )
}

/// A request, as it is sent.
pub fn request_to_json(r: &Request) -> (j: Json)
    ensures
        j@ == request_json(r@),
{
    let presence = match &r.presence {
        None => Json::Null,
        Some(p) => {
            let mut f = Fields::new();
            f.put_text("device_id", p.device_id.as_str());
            f.put_text("nonce", p.nonce.as_str());
            f.put_text("signature_hex", p.signature_hex.as_str());
            assert(f@ =~= presence_json(r@.presence)->Object_0);
            f.object()
        },
    };
    let mut f = Fields::new();
    f.put_text("jsonrpc", "2.0");
    f.put("id", Json::Unsigned(r.id));
    f.put_text("method", r.method.as_str());
    f.put("params", r.params.copy());
    f.put("presence", presence);
    assert(f@ =~= request_json(r@)->Object_0);
    f.object()
}

/// Why a call was refused, as it is sent.
pub open spec fn error_json(e: RpcErrorView) -> JsonView {
    JsonView::Object(
        seq![("code"@, number_json(e.code as int)), ("message"@, JsonView::Text(e.message))],
    )
}

/// An answer, as it is sent: its result or its error, whichever there is.
pub open spec fn response_json(r: ResponseView) -> JsonView {
    let head = seq![
        ("jsonrpc"@, JsonView::Text("2.0"@)),
        ("id"@, JsonView::Unsigned(r.id as nat)),
    ];
    let with_result = match r.result {
        Some(v) => head.push(("result"@, v)),
        None => head,
    };
    JsonView::Object(
        match r.error {
            Some(e) => with_result.push(("error"@, error_json(e))),
            None => with_result,
        },
    )
}

/// An answer, as it is sent.
pub fn response_to_json(r: &Response) -> (j: Json)
    ensures
        j@ == response_json(r@),
{
    let mut f = Fields::new();
    f.put_text("jsonrpc", "2.0");
    f.put("id", Json::Unsigned(r.id));
    if let Some(v) = &r.result {
        f.put("result", v.copy());
    }
    if let Some(e) = &r.error {
        let mut g = Fields::new();
        g.put("code", number_to_json(e.code as i64));
        g.put_text("message", e.message.as_str());
        assert(g@ =~= error_json(e@)->Object_0);
        f.put("error", g.object());
    }
    assert(f@ =~= response_json(r@)->Object_0);
    f.object()
}

/// A code that fits.
pub open spec fn code_in(v: Option<JsonView>) -> Option<i32> {
    match v {
        Some(JsonView::Unsigned(n)) => if n <= i32::MAX {
            Some(n as i32)
        } else {
            None
        },
        Some(JsonView::Negative(n)) => if i32::MIN <= n <= i32::MAX {
            Some(n as i32)
        } else {
            None
        },
        _ => None,
    }
}

/// Why a call was refused, if the value says so; nothing where there is nothing or null.
pub open spec fn error_in(v: JsonView) -> Result<Option<RpcErrorView>, ()> {
    let e = field(v, "error"@);
    if left_out(e) {
        Ok(None)
    } else {
        error_of(named(e->0, error_names(), 2))
    }
}

/// The names of what an error has, in their order.
pub open spec fn error_names() -> Seq<Seq<char>> {
    seq!["code"@, "message"@]
}

/// The error that an object is.
pub open spec fn error_of(e: JsonView) -> Result<Option<RpcErrorView>, ()> {
    match (code_in(field(e, "code"@)), text_field(e, "message"@)) {
        (Some(code), Some(message)) => Ok(Some(RpcErrorView { code, message })),
        _ => Err(()),
    }
}

/// The names of what an answer has, in their order.
pub open spec fn response_names() -> Seq<Seq<char>> {
    seq!["jsonrpc"@, "id"@, "result"@, "error"@]
}

/// The answer that a value is, if it is one.
pub open spec fn response_in(v: JsonView) -> Option<ResponseView> {
    response_of(named(v, response_names(), 2))
}

/// The answer that an object is.
pub open spec fn response_of(v: JsonView) -> Option<ResponseView> {
    match (text_field(v, "jsonrpc"@), number_field(v, "id"@), error_in(v)) {
        (Some(_), Some(id), Ok(error)) => Some(
            ResponseView {
                id: id as u64,
                result: if left_out(field(v, "result"@)) {
                    None
                } else {
                    field(v, "result"@)
                },
                error,
            },
        ),
        _ => None,
    }
}

fn read_error(v: &Json) -> (r: Result<Option<RpcError>, ()>)
    ensures
        match r {
            Ok(e) => error_in(v@) == Ok::<Option<RpcErrorView>, ()>(opt(e)),
            Err(()) => error_in(v@) is Err,
        },
{
    let e = match v.get("error") {
        None => return Ok(None),
        Some(Json::Null) => return Ok(None),
        Some(e) => e,
    };
    if let Json::Array(_) = e {
        let names = vec!["code", "message"];
        assert(all(names@) =~= error_names());
        let parts = with_names(e, &names, 2);
        return read_error_object(&parts);
    }
    read_error_object(e)
}

fn read_error_object(e: &Json) -> (r: Result<Option<RpcError>, ()>)
    ensures
        match r {
            Ok(x) => error_of(e@) == Ok::<Option<RpcErrorView>, ()>(opt(x)),
            Err(()) => error_of(e@) is Err,
        },
{
    let code: i32 = match e.get("code") {
        Some(Json::Unsigned(n)) => if *n <= i32::MAX as u64 {
            *n as i32
        } else {
            return Err(());
        },
        Some(Json::Negative(n)) => if i32::MIN as i64 <= *n && *n <= i32::MAX as i64 {
            *n as i32
        } else {
            return Err(());
        },
        _ => return Err(()),
    };
    match e.text_at("message") {
        Some(m) => Ok(Some(RpcError { code, message: m.dup() })),
        None => Err(()),
    }
}

/// The answer that a value is, if it is one.
pub fn read_response(v: &Json) -> (r: Option<Response>)
    ensures
        opt(r) == response_in(v@),
{
    if let Json::Array(_) = v {
        let names = vec!["jsonrpc", "id", "result", "error"];
        assert(all(names@) =~= response_names());
        let parts = with_names(v, &names, 2);
        return read_response_object(&parts);
    }
    read_response_object(v)
}

fn read_response_object(v: &Json) -> (r: Option<Response>)
    ensures
        opt(r) == response_of(v@),
{
    let error = match read_error(v) {
        Ok(e) => e,
        Err(()) => return None,
    };
    let result = match v.get("result") {
        None => None,
        Some(Json::Null) => None,
        Some(x) => Some(x.copy()),
    };
    match (v.text_at("jsonrpc"), v.number_at("id")) {
        (Some(_), Some(id)) => Some(Response { id, result, error }),
        _ => None,
    }
}

/// A call that was answered with an error.
#[derive(Debug)]
pub struct CallError {
    pub code: i32,
    pub message: String,
}

/// What came of a call.
#[derive(Debug)]
pub enum CallOutcome {
    Answered(Json),
    Refused(CallError),
    /// The answer is none to this call.
    Malformed(String),
}

/// What came of the call with this id, from its answer.
pub fn call_outcome(id: u64, resp: Response) -> (r: CallOutcome)
    ensures
        match r {
            CallOutcome::Answered(v) => resp@.error is None && resp@.id == id && resp@.result
                == Some(v@),
            CallOutcome::Refused(e) => resp@.error == Some(
                RpcErrorView { code: e.code, message: e.message@ },
            ),
            CallOutcome::Malformed(why) => resp@.error is None && (resp@.result is None || resp@.id
                != id) && why@ == "malformed response to request "@ + decimal(id as nat),
        },
{
    match resp.error {
        Some(e) => CallOutcome::Refused(CallError { code: e.code, message: e.message }),
        None => {
            if resp.id == id {
                if let Some(v) = resp.result {
                    return CallOutcome::Answered(v);
                }
            }
            let n = decimal_text(id);
            CallOutcome::Malformed(cat("malformed response to request ", n.as_str()))
        },
    }
}

/// Whether a method derives who is calling from its request, and so takes a proof.
pub open spec fn derives_principal(method: Seq<char>) -> bool {
    ||| method == "task.create"@
    ||| method == "task.step"@
    ||| method == "stop"@
    ||| method == "resume"@
    ||| method == "approve"@
    ||| method == "web.link"@
}

/// Whether a method takes a proof that a person is there.
pub fn takes_presence(method: &str) -> (r: bool)
    ensures
        r == derives_principal(method@),
{
    same(method, "task.create") || same(method, "task.step") || same(method, "stop") || same(
        method,
        "resume",
    ) || same(method, "approve") || same(method, "web.link")
}

/// A proof whose nonce was taken already, with what became of that.
#[derive(Debug)]
pub struct Presented {
    pub proof: PresenceProof,
    pub nonce: Result<(), RpcError>,
}

/// What a [`Presented`] says.
pub struct PresentedView {
    pub proof: PresenceProofView,
    pub nonce: Result<(), RpcErrorView>,
}

impl View for Presented {
    type V = PresentedView;

    open spec fn view(&self) -> PresentedView {
        PresentedView { proof: self.proof@, nonce: rpc_done(self.nonce) }
    }
}

/// Who a request comes from: this node's own machine, and the person whose device
/// made a proof over a nonce that was still good.
pub open spec fn caller_of<A>(k: KernelView<A>, presence: Option<PresentedView>) -> Result<
    PrincipalView,
    RpcErrorView,
> {
    match presence {
        None => Ok(PrincipalView::Machine { node_id: k.node_id, lease_id: "cli"@ }),
        Some(p) => match p.nonce {
            Err(e) => Err(e),
            Ok(()) => {
                let sig = p.proof.signature_hex;
                if !is_hex(sig) || unhex(sig).len() != 64 {
                    Err(against_invariant("I1: presence signature is not 64 bytes of hex"@))
                } else {
                    match device_check(
                        k.devices,
                        p.proof.device_id,
                        presence_message(p.proof.nonce),
                        unhex(sig),
                    ) {
                        Err(why) => Err(against_invariant("I1: "@ + why)),
                        Ok(()) => Ok(PrincipalView::Human { device_id: p.proof.device_id }),
                    }
                }
            },
        },
    }
}

/// What a request may do and see.
pub open spec fn ctx_of<A>(k: KernelView<A>, presence: Option<PresentedView>, now: u64) -> Result<
    CtxView,
    RpcErrorView,
> {
    match caller_of(k, presence) {
        Err(e) => Err(e),
        Ok(principal) => Ok(
            CtxView {
                principal,
                clearance: Clearance { max_scope: Scope::Personal, third_party_allowed: true },
                partition: "local"@,
                now_ms: now,
            },
        ),
    }
}

/// Who a request comes from, and what it may do and see. The only place where that is
/// decided for a request.
pub fn ctx_for<A>(k: &RealKernel<A>, presence: &Option<Presented>, now: u64) -> (r: Result<
    Ctx,
    RpcError,
>)
    requires
        k.wf(),
    ensures
        rpc_outcome(r) == ctx_of(k@, opt(*presence), now),
{
    let principal = match presence {
        None => Principal::Machine { node_id: k.node_id.dup(), lease_id: "cli".to_owned() },
        Some(p) => {
            if let Err(e) = &p.nonce {
                return Err(e.dup());
            }
            let sig = match hex_decode(p.proof.signature_hex.as_str()) {
                Some(bytes) => array_of_64(&bytes),
                None => None,
            };
            match sig {
                None => {
                    return Err(invariant_error("I1: presence signature is not 64 bytes of hex"));
                },
                Some(sig) => {
                    let message = PresenceProof::message(p.proof.nonce.as_str());
                    match k.verify_device(
                        p.proof.device_id.as_str(),
                        message.as_slice(),
                        &sig,
                    ) {
                        Err(why) => {
                            return Err(invariant_error(cat("I1: ", why.as_str()).as_str()));
                        },
                        Ok(()) => Principal::Human { device_id: p.proof.device_id.dup() },
                    }
                },
            }
        },
    };
    Ok(
        Ctx {
            principal,
            clearance: Clearance { max_scope: Scope::Personal, third_party_allowed: true },
            partition: "local".to_owned(),
            now_ms: now,
        },
    )
}

/// A request is a person's only when it carries a proof, over a nonce that was still
/// good, that an enrolled device signed.
pub proof fn only_a_proof_makes_a_person<A>(
    k: KernelView<A>,
    presence: Option<PresentedView>,
    now: u64,
)
    requires
        ctx_of(k, presence, now) is Ok,
        ctx_of(k, presence, now)->Ok_0.principal is Human,
    ensures
        presence is Some,
        presence->0.nonce is Ok,
        k.devices.contains_key(presence->0.proof.device_id),
        ed25519_accepts(
            k.devices[presence->0.proof.device_id],
            presence_message(presence->0.proof.nonce),
            unhex(presence->0.proof.signature_hex),
        ),
{
}

/// No proof is read as approval, and without one a request is a machine's.
pub proof fn no_proof_is_a_machine<A>(k: KernelView<A>, now: u64)
    ensures
        ctx_of(k, None, now) is Ok,
        ctx_of(k, None, now)->Ok_0.principal is Machine,
{
}

} // verus!
