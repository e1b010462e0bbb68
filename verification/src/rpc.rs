//! The JSON-RPC 2.0 envelope of the protocol: requests, responses, and the
//! handling of one request against a connection's tasks.

use vstd::prelude::*;
use vstd::string::StringExecFns;
use crate::error::{ErrorCode, HeError, code_message, code_number, coded_text, error_code_of, is_message_of};
use crate::json::{JsonValue, JsonView};
use crate::queue::{PrintManager, QueueView};
use crate::router::{
    HostAnswer, HostQuery, QueryView, answer_error, passes_host_error, ReplyView, Step, StepView, answer_fits, dispatch,
    dispatch_panics, dispatch_would_panic, resume, resume_spec, route, step_view, uses_fresh_id,
};
use crate::task::{ManagerView, TaskManager, is_uuid_v4_text, manager_wf};
use crate::text::str_equal;

verus! {

/// A request as the client sends it; missing parameters read as `null`.
#[derive(Debug)]
pub struct JsonRpcRequest {
    pub jsonrpc: String,
    pub id: JsonValue,
    pub method: String,
    pub params: JsonValue,
}

/// The error object of a response.
#[derive(Debug)]
pub struct JsonRpcError {
    pub code: i32,
    pub message: String,
    pub data: Option<JsonValue>,
}

/// A response: exactly one of `result` and `error` is present.
#[derive(Debug)]
pub struct JsonRpcResponse {
    pub jsonrpc: &'static str,
    pub id: JsonValue,
    pub result: Option<JsonValue>,
    pub error: Option<JsonRpcError>,
}

/// The code of a request that is not JSON-RPC 2.0 or cannot be read.
pub const PROTOCOL_ERROR: i32 = 1003;

/// Whether `r` is the error response to request `id` with this code and
/// message.
pub open spec fn is_error_response(r: JsonRpcResponse, id: JsonView, code: int, message: Seq<char>) -> bool {
    &&& r.jsonrpc@ == "2.0"@
    &&& r.id@ == id
    &&& r.result is None
    &&& r.error matches Some(e) && e.code == code && e.message@ == message && e.data is None
}

/// Whether `r` is the success response to request `id` carrying `v`.
pub open spec fn is_result_response(r: JsonRpcResponse, id: JsonView, v: JsonView) -> bool {
    &&& r.jsonrpc@ == "2.0"@
    &&& r.id@ == id
    &&& r.result matches Some(x) && x@ == v
    &&& r.error is None
}

/// Whether `r` answers request `id` with the outcome `out`: its value, or
/// its error's number and text.
pub open spec fn answers(r: JsonRpcResponse, id: JsonView, out: Result<JsonValue, HeError>) -> bool {
    match out {
        Ok(v) => is_result_response(r, id, v@),
        Err(e) => r.jsonrpc@ == "2.0"@ && r.id@ == id && r.result is None && (r.error matches Some(x)
            && x.code == code_number(error_code_of(e)) && is_message_of(e, x.message@) && x.data is None),
    }
}

/// Whether `r` answers request `id` with a reply as the router states it.
/// A coded error is sent with its number and `[Name] message`.
pub open spec fn answers_view(r: JsonRpcResponse, id: JsonView, out: ReplyView) -> bool {
    match out {
        Ok(v) => is_result_response(r, id, v),
        Err(Some((c, m))) => is_error_response(r, id, code_number(c), coded_text(c, m)),
        Err(None) => r.jsonrpc@ == "2.0"@ && r.id@ == id && r.result is None && (r.error matches Some(
            x,
        ) && x.code == code_number(ErrorCode::Unknown) && x.data is None),
    }
}

impl JsonRpcResponse {
    /// The success response to request `id`.
    pub fn ok(id: JsonValue, result: JsonValue) -> (r: JsonRpcResponse)
        ensures
            is_result_response(r, id@, result@),
    {
        proof {
            reveal_strlit("2.0");
        }
        JsonRpcResponse { jsonrpc: "2.0", id, result: Some(result), error: None }
    }

    /// The error response to request `id`.
    pub fn err(id: JsonValue, code: i32, message: String) -> (r: JsonRpcResponse)
        ensures
            is_error_response(r, id@, code as int, message@),
    {
        JsonRpcResponse {
            jsonrpc: "2.0",
            id,
            result: None,
            error: Some(JsonRpcError { code, message, data: None }),
        }
    }
}

/// The response to request `id` with this outcome.
pub fn response_for(id: JsonValue, out: Result<JsonValue, HeError>) -> (r: JsonRpcResponse)
    ensures
        answers(r, id@, out),
{
    match out {
        Ok(v) => JsonRpcResponse::ok(id, v),
        Err(e) => {
            let code = e.error_code().value();
            JsonRpcResponse::err(id, code, e.to_message())
        },
    }
}

/// The response to a text that is not a JSON-RPC request: no id, and the
/// reader's complaint after a fixed prefix.
pub fn unreadable_request(detail: &str) -> (r: JsonRpcResponse)
    ensures
        is_error_response(r, JsonView::Null, PROTOCOL_ERROR as int, "JSON-RPC 解析失败: "@ + detail@),
{
    JsonRpcResponse::err(JsonValue::Null, PROTOCOL_ERROR, "JSON-RPC 解析失败: ".to_owned().concat(detail))
}

/// What a request leads to: its response, or a query for the host after
/// which `finish_request` gives the response.
#[derive(Debug)]
pub enum RpcStep {
    Respond(JsonRpcResponse),
    Ask { id: JsonValue, query: HostQuery },
}

/// Whether `r` is what the router's step `s` leads to for request `id`.
pub open spec fn rpc_step_fits(r: RpcStep, id: JsonView, s: StepView) -> bool {
    match s {
        StepView::Reply(out) => r matches RpcStep::Respond(resp) && answers_view(resp, id, out),
        StepView::Ask(q) => r matches RpcStep::Ask { id: i, query } && i@ == id && query@ == q,
    }
}

/// Whether handling this request cannot give an answer (see
/// `dispatch_panics`).
pub open spec fn request_panics(req: JsonRpcRequest, m: ManagerView) -> bool {
    req.jsonrpc@ == "2.0"@ && dispatch_panics(req.method@, req.params@, m)
}

/// Whether `handle_request` has no answer for this request in this state.
pub fn request_would_panic(req: &JsonRpcRequest, mgr: &TaskManager) -> (r: bool)
    ensures
        r == request_panics(*req, mgr@),
{
    str_equal(req.jsonrpc.as_str(), "2.0") && dispatch_would_panic(req.method.as_str(), &req.params, mgr)
}

/// Handles one request: a request that is not JSON-RPC 2.0 is refused with
/// code 1003 and changes nothing; any other is routed.
pub fn handle_request(req: &JsonRpcRequest, mgr: &mut TaskManager, queue: &mut PrintManager) -> (r: RpcStep)
    requires
        manager_wf(old(mgr)@),
        !request_panics(*req, old(mgr)@),
    ensures
        manager_wf(final(mgr)@),
        req.jsonrpc@ != "2.0"@ ==> final(mgr)@ == old(mgr)@ && final(queue)@ == old(queue)@ && (r matches RpcStep::Respond(
            resp,
        ) && is_error_response(resp, req.id@, PROTOCOL_ERROR as int, "jsonrpc 必须为 2.0"@)),
        req.jsonrpc@ == "2.0"@ ==> exists|fresh: Seq<char>|
            {
                let (m2, q2, s) = #[trigger] route(req.method@, req.params@, old(mgr)@, old(queue)@, fresh);
                &&& uses_fresh_id(req.method@) ==> is_uuid_v4_text(fresh)
                &&& final(mgr)@ == m2
                &&& final(queue)@ == q2
                &&& rpc_step_fits(r, req.id@, s)
            },
{
    if !str_equal(req.jsonrpc.as_str(), "2.0") {
        return RpcStep::Respond(
            JsonRpcResponse::err(req.id.duplicate(), PROTOCOL_ERROR, "jsonrpc 必须为 2.0".to_owned()),
        );
    }
    let step = dispatch(req.method.as_str(), &req.params, mgr, queue);
    let id = req.id.duplicate();
    match step {
        Step::Reply(out) => {
            let ghost o = out;
            let resp = response_for(id, out);
            proof {
                match o {
                    Ok(_) => {},
                    Err(e) => {
                        match e {
                            HeError::Coded { .. } => {},
                            _ => {},
                        }
                    },
                }
            }
            RpcStep::Respond(resp)
        },
        Step::Ask(query) => RpcStep::Ask { id, query },
    }
}

/// Finishes a request once the host has answered its query.
pub fn finish_request(id: JsonValue, query: HostQuery, ans: HostAnswer, mgr: &mut TaskManager) -> (r: JsonRpcResponse)
    requires
        manager_wf(old(mgr)@),
        answer_fits(query@, ans@),
    ensures
        manager_wf(final(mgr)@),
        final(mgr)@ == resume_spec(query@, ans@, old(mgr)@).0,
        answers_view(r, id@, resume_spec(query@, ans@, old(mgr)@).1),
        passes_host_error(query@) && answer_error(ans) is Some ==> answers(
            r,
            id@,
            Err::<JsonValue, HeError>(answer_error(ans)->0),
        ),
{
    let out = resume(query, ans, mgr);
    let ghost o = out;
    let resp = response_for(id, out);
    proof {
        match o {
            Ok(_) => {},
            Err(e) => {
                match e {
                    HeError::Coded { .. } => {},
                    _ => {},
                }
            },
        }
    }
    resp
}

} // verus!
