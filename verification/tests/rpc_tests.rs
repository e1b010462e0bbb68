use heprint::error::{ErrorCode, HeError};
use heprint::json::{JsonValue, Number};
use heprint::queue::PrintManager;
use heprint::router::{HostAnswer, HostQuery};
use heprint::rpc::{finish_request, handle_request, request_would_panic, response_for, unreadable_request, JsonRpcRequest, JsonRpcResponse, RpcStep};
use heprint::task::TaskManager;

fn request(version: &str, id: u64, method: &str, params: JsonValue) -> JsonRpcRequest {
    JsonRpcRequest {
        jsonrpc: version.to_string(),
        id: JsonValue::Number(Number::PosInt(id)),
        method: method.to_string(),
        params,
    }
}

fn respond(step: RpcStep) -> JsonRpcResponse {
    match step {
        RpcStep::Respond(r) => r,
        RpcStep::Ask { .. } => panic!("unexpected query"),
    }
}

#[test]
fn a_request_that_is_not_2_0_is_refused_and_changes_nothing() {
    let mut mgr = TaskManager::new();
    let mut q = PrintManager::new(4);
    let req = request("1.0", 7, "HE_INIT", JsonValue::Null);
    assert!(!request_would_panic(&req, &mgr));
    let r = respond(handle_request(&req, &mut mgr, &mut q));
    assert_eq!(r.jsonrpc, "2.0");
    assert_eq!(r.id, JsonValue::Number(Number::PosInt(7)));
    assert!(r.result.is_none());
    let e = r.error.unwrap();
    assert_eq!(e.code, 1003);
    assert_eq!(e.message, "jsonrpc 必须为 2.0");
    assert!(e.data.is_none());
    assert!(mgr.current.is_none());
}

#[test]
fn a_routed_request_answers_with_its_id() {
    let mut mgr = TaskManager::new();
    let mut q = PrintManager::new(4);
    let r = respond(handle_request(&request("2.0", 1, "HE_VERSION", JsonValue::Null), &mut mgr, &mut q));
    assert_eq!(r.id, JsonValue::Number(Number::PosInt(1)));
    assert_eq!(
        r.result,
        Some(JsonValue::Object(vec![("version".to_string(), JsonValue::String("1.1.1".to_string()))]))
    );
    assert!(r.error.is_none());
}

#[test]
fn a_failed_command_is_sent_with_its_code_and_text() {
    let mut mgr = TaskManager::new();
    let mut q = PrintManager::new(4);
    let r = respond(handle_request(&request("2.0", 2, "HE_PRINT", JsonValue::Null), &mut mgr, &mut q));
    let e = r.error.unwrap();
    assert_eq!(e.code, 2002);
    assert_eq!(e.message, "[TaskEmpty] 无 current 任务");
    let r = respond(handle_request(&request("2.0", 3, "NOPE", JsonValue::Null), &mut mgr, &mut q));
    let e = r.error.unwrap();
    assert_eq!(e.code, 1004);
    assert_eq!(e.message, "[MethodNotFound] 未知方法: NOPE");
}

#[test]
fn a_host_query_is_finished_with_the_same_id() {
    let mut mgr = TaskManager::new();
    let mut q = PrintManager::new(4);
    let step = handle_request(&request("2.0", 9, "HE_GET_DEFAULT_PRINTER", JsonValue::Null), &mut mgr, &mut q);
    let (id, query) = match step {
        RpcStep::Ask { id, query } => (id, query),
        RpcStep::Respond(r) => panic!("unexpected response {r:?}"),
    };
    assert!(matches!(query, HostQuery::DefaultPrinter));
    let failed = HeError::coded(ErrorCode::Unknown, "本平台暂不支持打印".to_string());
    let r = finish_request(id, query, HostAnswer::DefaultPrinter(Err(failed)), &mut mgr);
    assert_eq!(r.id, JsonValue::Number(Number::PosInt(9)));
    let e = r.error.unwrap();
    assert_eq!(e.code, -1);
    assert_eq!(e.message, "[Unknown] 本平台暂不支持打印");
}

#[test]
fn responses_carry_results_or_errors() {
    let r = response_for(JsonValue::Null, Ok(JsonValue::Bool(true)));
    assert_eq!(r.result, Some(JsonValue::Bool(true)));
    assert!(r.error.is_none());
    let r = response_for(JsonValue::Null, Err(HeError::Other("plain".to_string())));
    let e = r.error.unwrap();
    assert_eq!((e.code, e.message.as_str()), (-1, "plain"));
    let r = JsonRpcResponse::ok(JsonValue::Null, JsonValue::Null);
    assert_eq!(r.jsonrpc, "2.0");
    let r = JsonRpcResponse::err(JsonValue::Null, 5, "x".to_string());
    assert_eq!(r.error.unwrap().code, 5);
}

#[test]
fn unreadable_text_is_answered_without_id() {
    let r = unreadable_request("expected value");
    assert_eq!(r.id, JsonValue::Null);
    let e = r.error.unwrap();
    assert_eq!(e.code, 1003);
    assert_eq!(e.message, "JSON-RPC 解析失败: expected value");
}

#[test]
fn a_missing_task_id_is_an_invalid_parameter_2003() {
    let mut mgr = TaskManager::new();
    let mut q = PrintManager::new(4);
    let r = respond(handle_request(&request("2.0", 7, "HE_CLOSE_TASK", JsonValue::Object(vec![])), &mut mgr, &mut q));
    assert_eq!(r.id, JsonValue::Number(Number::PosInt(7)));
    assert!(r.result.is_none());
    assert_eq!(r.error.unwrap().code, 2003);
}

#[test]
fn a_host_error_without_a_code_is_sent_with_its_own_text() {
    let mut mgr = TaskManager::new();
    let id = JsonValue::Number(Number::PosInt(4));
    let failed = HeError::Other("spooler stopped".to_string());
    let r = finish_request(id, HostQuery::DefaultPrinter, HostAnswer::DefaultPrinter(Err(failed)), &mut mgr);
    let e = r.error.unwrap();
    assert_eq!(e.code, -1);
    assert_eq!(e.message, "spooler stopped");
}
