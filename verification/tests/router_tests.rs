use heprint::error::{ErrorCode, HeError};
use heprint::item::PrintItem;
use heprint::json::{JsonValue, Number};
use heprint::printer::PrinterInfo;
use heprint::queue::PrintManager;
use heprint::router::{dispatch, dispatch_would_panic, resume, HostAnswer, HostQuery, Step};
use heprint::task::{TaskManager, TaskResult};
use heprint::types::{BarcodeType, LineStyle, Rect};

fn s(t: &str) -> JsonValue {
    JsonValue::String(t.to_string())
}

fn num(n: i64) -> JsonValue {
    if n >= 0 {
        JsonValue::Number(Number::PosInt(n as u64))
    } else {
        JsonValue::Number(Number::NegInt(n))
    }
}

fn obj(members: Vec<(&str, JsonValue)>) -> JsonValue {
    JsonValue::Object(members.into_iter().map(|(k, v)| (k.to_string(), v)).collect())
}

fn reply(step: Step) -> Result<JsonValue, HeError> {
    match step {
        Step::Reply(r) => r,
        Step::Ask(q) => panic!("unexpected query {q:?}"),
    }
}

fn ok(step: Step) -> JsonValue {
    reply(step).expect("command failed")
}

fn err(step: Step) -> (ErrorCode, String) {
    match reply(step) {
        Err(HeError::Coded { code, message }) => (code, message),
        other => panic!("expected a coded error, got {other:?}"),
    }
}

fn member<'a>(v: &'a JsonValue, key: &str) -> &'a JsonValue {
    v.get(key).expect("member missing")
}

fn text_of(v: &JsonValue, key: &str) -> String {
    member(v, key).as_str().expect("not text").to_string()
}

fn run(method: &str, p: JsonValue, mgr: &mut TaskManager, q: &mut PrintManager) -> Step {
    assert!(!dispatch_would_panic(method, &p, mgr));
    dispatch(method, &p, mgr, q)
}

/// Runs `HE_SET_PRINTER` with a name, the host answering whether it exists.
fn set_named_printer(p: JsonValue, exists: bool, mgr: &mut TaskManager, q: &mut PrintManager) -> Result<JsonValue, HeError> {
    match run("HE_SET_PRINTER", p, mgr, q) {
        Step::Ask(query @ HostQuery::NamedPrinterFor { .. }) => resume(query, HostAnswer::HasPrinter(Ok(exists)), mgr),
        other => panic!("unexpected step {other:?}"),
    }
}

#[test]
fn init_then_add_text_reports_index() {
    let mut mgr = TaskManager::new();
    let mut q = PrintManager::new(4);
    let r = ok(run("HE_INIT", obj(vec![("taskName", s("订单"))]), &mut mgr, &mut q));
    assert_eq!(text_of(&r, "taskName"), "订单");
    let full = text_of(&r, "fullId");
    assert_eq!(text_of(&r, "taskId"), full);
    assert_eq!(full.len(), 36);
    let p = obj(vec![("top", num(20)), ("left", num(10)), ("width", num(280)), ("height", num(30)), ("text", s("订单 #2026001"))]);
    let r = ok(run("HE_ADD_TEXT", p, &mut mgr, &mut q));
    assert_eq!(r, obj(vec![("ok", JsonValue::Bool(true)), ("index", num(0))]));
    let r = ok(run("HE_ADD_TEXT", obj(vec![("top", num(0)), ("left", num(0))]), &mut mgr, &mut q));
    assert_eq!(r, obj(vec![("ok", JsonValue::Bool(true)), ("index", num(1))]));
    let task = mgr.current.as_ref().unwrap();
    assert_eq!(task.name, "订单");
    assert_eq!(task.items.len(), 2);
    match &task.items[0] {
        PrintItem::Text { bounds, text, .. } => {
            assert_eq!(*bounds, Rect::new(20, 10, 280, 30));
            assert_eq!(text, "订单 #2026001");
        }
        other => panic!("unexpected item {other:?}"),
    }
}

#[test]
fn adding_without_a_task_fails() {
    let mut mgr = TaskManager::new();
    let mut q = PrintManager::new(4);
    let (code, msg) = err(run("HE_ADD_TEXT", obj(vec![("top", num(0)), ("left", num(0))]), &mut mgr, &mut q));
    assert_eq!(code, ErrorCode::TaskNotFound);
    assert_eq!(msg, "请先调用 HE_INIT 或 HE_OPEN_TASK");
}

#[test]
fn missing_coordinates_are_refused() {
    let mut mgr = TaskManager::new();
    let mut q = PrintManager::new(4);
    ok(run("HE_INIT", JsonValue::Null, &mut mgr, &mut q));
    let (code, msg) = err(run("HE_ADD_HTML", obj(vec![("left", num(0))]), &mut mgr, &mut q));
    assert_eq!((code, msg.as_str()), (ErrorCode::InvalidParam, "缺少 top"));
    let (code, msg) = err(run("HE_ADD_IMAGE", obj(vec![("top", num(0))]), &mut mgr, &mut q));
    assert_eq!((code, msg.as_str()), (ErrorCode::InvalidParam, "缺少 left"));
    assert!(mgr.current.as_ref().unwrap().items.is_empty());
}

#[test]
fn init_names_untitled_by_default() {
    let mut mgr = TaskManager::new();
    let mut q = PrintManager::new(4);
    let r = ok(run("HE_INIT", JsonValue::Null, &mut mgr, &mut q));
    assert_eq!(text_of(&r, "taskName"), "untitled");
}

#[test]
fn open_task_hands_out_sequential_short_ids() {
    let mut mgr = TaskManager::new();
    let mut q = PrintManager::new(4);
    let a = ok(run("HE_OPEN_TASK", obj(vec![("taskName", s("a"))]), &mut mgr, &mut q));
    let b = ok(run("HE_OPEN_TASK", obj(vec![("taskName", s("b"))]), &mut mgr, &mut q));
    assert_eq!(text_of(&a, "taskId"), "T_001");
    assert_eq!(text_of(&b, "taskId"), "T_002");
    assert_ne!(text_of(&a, "fullId"), text_of(&b, "fullId"));
    assert_eq!(mgr.tasks.len(), 2);
    assert_eq!(mgr.next_short_id, 3);
}

#[test]
fn opened_task_is_addressed_by_short_and_full_id() {
    let mut mgr = TaskManager::new();
    let mut q = PrintManager::new(4);
    ok(run("HE_OPEN_TASK", obj(vec![("taskName", s("a"))]), &mut mgr, &mut q));
    let b = ok(run("HE_OPEN_TASK", obj(vec![("taskName", s("b"))]), &mut mgr, &mut q));
    let full_b = text_of(&b, "fullId");
    let p = obj(vec![("taskId", s("T_002")), ("top", num(1)), ("left", num(2)), ("btype", s("qrcode")), ("value", s("x"))]);
    assert_eq!(ok(run("HE_ADD_BARCODE", p, &mut mgr, &mut q)), obj(vec![("ok", JsonValue::Bool(true))]));
    let p = obj(vec![("taskId", s(&full_b)), ("top", num(1)), ("left", num(2)), ("content", s("data:x"))]);
    ok(run("HE_ADD_PDF", p, &mut mgr, &mut q));
    assert!(mgr.tasks[0].items.is_empty());
    assert_eq!(mgr.tasks[1].items.len(), 2);
    match &mgr.tasks[1].items[0] {
        PrintItem::Barcode { btype, value, .. } => {
            assert_eq!(*btype, BarcodeType::QRCode);
            assert_eq!(value, "x");
        }
        other => panic!("unexpected item {other:?}"),
    }
    assert!(mgr.current.is_none());
}

#[test]
fn closing_twice_reports_false_the_second_time() {
    let mut mgr = TaskManager::new();
    let mut q = PrintManager::new(4);
    ok(run("HE_OPEN_TASK", JsonValue::Null, &mut mgr, &mut q));
    let p = || obj(vec![("taskId", s("T_001"))]);
    assert_eq!(ok(run("HE_CLOSE_TASK", p(), &mut mgr, &mut q)), obj(vec![("ok", JsonValue::Bool(true))]));
    assert_eq!(ok(run("HE_CLOSE_TASK", p(), &mut mgr, &mut q)), obj(vec![("ok", JsonValue::Bool(false))]));
    let (code, msg) = err(run("HE_CLOSE_TASK", JsonValue::Null, &mut mgr, &mut q));
    assert_eq!((code, msg.as_str()), (ErrorCode::InvalidParam, "缺少 taskId"));
}

#[test]
fn list_tasks_describes_each_task() {
    let mut mgr = TaskManager::new();
    let mut q = PrintManager::new(4);
    let a = ok(run("HE_OPEN_TASK", obj(vec![("taskName", s("a"))]), &mut mgr, &mut q));
    set_named_printer(obj(vec![("taskId", s("T_001")), ("printer", s("XP-80C"))]), true, &mut mgr, &mut q).unwrap();
    let r = ok(run("HE_LIST_TASKS", JsonValue::Null, &mut mgr, &mut q));
    let expected = obj(vec![
        ("ok", JsonValue::Bool(true)),
        (
            "tasks",
            JsonValue::Array(vec![obj(vec![
                ("taskId", s("T_001")),
                ("fullId", s(&text_of(&a, "fullId"))),
                ("name", s("a")),
                ("items", num(0)),
                ("status", s("building")),
                ("printer", s("XP-80C")),
            ])]),
        ),
    ]);
    assert_eq!(r, expected);
}

#[test]
fn print_hands_the_current_task_to_the_host_and_answers_its_result() {
    let mut mgr = TaskManager::new();
    let mut q = PrintManager::new(4);
    let r = ok(run("HE_INIT", JsonValue::Null, &mut mgr, &mut q));
    let full = text_of(&r, "fullId");
    ok(run("HE_ADD_TEXT", obj(vec![("top", num(0)), ("left", num(0)), ("text", s("hi"))]), &mut mgr, &mut q));
    let query = match run("HE_PRINT_SILENT", JsonValue::Null, &mut mgr, &mut q) {
        Step::Ask(query) => query,
        other => panic!("unexpected step {other:?}"),
    };
    match &query {
        HostQuery::Print { task, silent } => {
            assert_eq!(task.task_id, full);
            assert_eq!(task.items.len(), 1);
            assert!(*silent);
        }
        other => panic!("unexpected query {other:?}"),
    }
    assert!(mgr.current.is_none());
    assert_eq!(q.queue_len(), 0);
    let r = resume(query, HostAnswer::Printed(TaskResult::success(full.clone(), 2)), &mut mgr).unwrap();
    let expected = obj(vec![("taskId", s(&full)), ("success", JsonValue::Bool(true)), ("pages", num(2))]);
    assert_eq!(r, expected);
    let (code, msg) = err(run("HE_PRINT", JsonValue::Null, &mut mgr, &mut q));
    assert_eq!((code, msg.as_str()), (ErrorCode::TaskEmpty, "无 current 任务"));
}

#[test]
fn print_task_takes_the_named_task() {
    let mut mgr = TaskManager::new();
    let mut q = PrintManager::new(4);
    let a = ok(run("HE_OPEN_TASK", JsonValue::Null, &mut mgr, &mut q));
    let r = ok(run("HE_PRINT_TASK", obj(vec![("taskId", s("T_001")), ("silent", JsonValue::Bool(false))]), &mut mgr, &mut q));
    assert_eq!(text_of(&r, "taskId"), "T_001");
    assert_eq!(text_of(&r, "jobId"), text_of(&a, "fullId"));
    assert!(mgr.tasks.is_empty());
    let job = q.next_job().unwrap();
    assert!(!job.silent);
    let (code, msg) = err(run("HE_PRINT_TASK", obj(vec![("taskId", s("T_001"))]), &mut mgr, &mut q));
    assert_eq!((code, msg.as_str()), (ErrorCode::TaskNotFound, "任务不存在: T_001"));
}

#[test]
fn set_style_sets_the_last_item() {
    let mut mgr = TaskManager::new();
    let mut q = PrintManager::new(4);
    ok(run("HE_INIT", JsonValue::Null, &mut mgr, &mut q));
    let (code, msg) = err(run("HE_SET_STYLE", obj(vec![("name", s("Bold")), ("value", num(1))]), &mut mgr, &mut q));
    assert_eq!((code, msg.as_str()), (ErrorCode::InvalidParam, "无可设置样式的项"));
    ok(run("HE_ADD_TEXT", obj(vec![("top", num(0)), ("left", num(0))]), &mut mgr, &mut q));
    ok(run("HE_SET_STYLE", obj(vec![("name", s("Bold")), ("value", num(1))]), &mut mgr, &mut q));
    ok(run("HE_SET_STYLE", obj(vec![("name", s("FontColor")), ("value", s("#FF0000"))]), &mut mgr, &mut q));
    let (code, msg) = err(run("HE_SET_STYLE", obj(vec![("name", s("Shadow")), ("value", num(1))]), &mut mgr, &mut q));
    assert_eq!((code, msg.as_str()), (ErrorCode::InvalidParam, "未知样式名: Shadow"));
    match &mgr.current.as_ref().unwrap().items[0] {
        PrintItem::Text { style, .. } => {
            assert_eq!(style.bold, Some(true));
            assert_eq!(style.font_color, Some([255, 0, 0]));
        }
        other => panic!("unexpected item {other:?}"),
    }
    ok(run("HE_NEW_PAGE", JsonValue::Null, &mut mgr, &mut q));
    let (code, msg) = err(run("HE_SET_STYLE", obj(vec![("name", s("Bold"))]), &mut mgr, &mut q));
    assert_eq!((code, msg.as_str()), (ErrorCode::InvalidParam, "该项不支持设置样式"));
    let (code, msg) = err(run("HE_SET_STYLE", JsonValue::Null, &mut mgr, &mut q));
    assert_eq!((code, msg.as_str()), (ErrorCode::InvalidParam, "缺少 name"));
}

#[test]
fn a_colour_text_cut_inside_a_character_is_flagged() {
    let mut mgr = TaskManager::new();
    let mut q = PrintManager::new(4);
    ok(run("HE_INIT", JsonValue::Null, &mut mgr, &mut q));
    ok(run("HE_ADD_TEXT", obj(vec![("top", num(0)), ("left", num(0))]), &mut mgr, &mut q));
    let p = obj(vec![("name", s("FontColor")), ("value", s("#0é000"))]);
    assert!(dispatch_would_panic("HE_SET_STYLE", &p, &mgr));
    let p = obj(vec![("name", s("FontColor")), ("value", s("#é0000"))]);
    assert!(!dispatch_would_panic("HE_SET_STYLE", &p, &mgr));
    let p = obj(vec![("name", s("FontName")), ("value", s("#0é000"))]);
    assert!(!dispatch_would_panic("HE_SET_STYLE", &p, &mgr));
}

#[test]
fn page_copies_and_options() {
    let mut mgr = TaskManager::new();
    let mut q = PrintManager::new(4);
    ok(run("HE_INIT", JsonValue::Null, &mut mgr, &mut q));
    let p = obj(vec![("orient", num(2)), ("width", num(80)), ("height", num(0)), ("name", s("Roll"))]);
    ok(run("HE_SET_PAGE", p, &mut mgr, &mut q));
    let r = ok(run("HE_SET_COPIES", obj(vec![("count", num(0))]), &mut mgr, &mut q));
    assert_eq!(r, obj(vec![("ok", JsonValue::Bool(true)), ("copies", num(1))]));
    let r = ok(run("HE_SET_COPIES", obj(vec![("count", num(3))]), &mut mgr, &mut q));
    assert_eq!(r, obj(vec![("ok", JsonValue::Bool(true)), ("copies", num(3))]));
    ok(run("HE_SET_OPTION", obj(vec![("key", s("duplex")), ("value", JsonValue::Bool(true))]), &mut mgr, &mut q));
    ok(run("HE_SET_OPTION", obj(vec![("key", s("duplex")), ("value", JsonValue::Bool(false))]), &mut mgr, &mut q));
    ok(run("HE_SET_OPTION", obj(vec![("key", s("tray"))]), &mut mgr, &mut q));
    let task = mgr.current.as_ref().unwrap();
    assert_eq!(task.copies, 3);
    assert_eq!(task.page.width_mm, Number::PosInt(80));
    assert_eq!(task.page.name.as_deref(), Some("Roll"));
    assert_eq!(task.options.len(), 2);
    assert_eq!(task.options[0], ("duplex".to_string(), JsonValue::Bool(false)));
    assert_eq!(task.options[1], ("tray".to_string(), JsonValue::Null));
    let (code, msg) = err(run("HE_SET_OPTION", JsonValue::Null, &mut mgr, &mut q));
    assert_eq!((code, msg.as_str()), (ErrorCode::InvalidParam, "缺少 key"));
}

#[test]
fn line_and_rect_read_their_styles() {
    let mut mgr = TaskManager::new();
    let mut q = PrintManager::new(4);
    ok(run("HE_INIT", JsonValue::Null, &mut mgr, &mut q));
    let p = obj(vec![("top1", num(1)), ("left1", num(2)), ("top2", num(3)), ("left2", num(4)), ("lineStyle", s("dashed"))]);
    ok(run("HE_ADD_LINE", p, &mut mgr, &mut q));
    ok(run("HE_ADD_RECT", obj(vec![("top", num(0)), ("left", num(0)), ("lineWidth", num(2))]), &mut mgr, &mut q));
    let items = &mgr.current.as_ref().unwrap().items;
    match &items[0] {
        PrintItem::Line { x1, y1, x2, y2, line_style, line_width, .. } => {
            assert_eq!((*x1, *y1, *x2, *y2), (2, 1, 4, 3));
            assert_eq!(*line_style, LineStyle::Dashed);
            assert_eq!(*line_width, Number::Float(1.0f64.to_bits()));
        }
        other => panic!("unexpected item {other:?}"),
    }
    match &items[1] {
        PrintItem::Rect { line_style, line_width, .. } => {
            assert_eq!(*line_style, LineStyle::Solid);
            assert_eq!(*line_width, Number::PosInt(2));
        }
        other => panic!("unexpected item {other:?}"),
    }
}

#[test]
fn unsupported_barcode_names_are_refused() {
    let mut mgr = TaskManager::new();
    let mut q = PrintManager::new(4);
    ok(run("HE_INIT", JsonValue::Null, &mut mgr, &mut q));
    let p = obj(vec![("top", num(0)), ("left", num(0)), ("type", s("ITF"))]);
    let (code, msg) = err(run("HE_ADD_BARCODE", p, &mut mgr, &mut q));
    assert_eq!((code, msg.as_str()), (ErrorCode::InvalidBarcodeType, "不支持的条码类型: ITF"));
}

#[test]
fn fixed_replies() {
    let mut mgr = TaskManager::new();
    let mut q = PrintManager::new(4);
    assert_eq!(ok(run("HE_VERSION", JsonValue::Null, &mut mgr, &mut q)), obj(vec![("version", s("1.1.1"))]));
    assert_eq!(ok(run("HE_ON_RESULT", JsonValue::Null, &mut mgr, &mut q)), obj(vec![("registered", JsonValue::Bool(true))]));
    let r = ok(run("HE_PREVIEW", JsonValue::Null, &mut mgr, &mut q));
    assert_eq!(text_of(&r, "message"), "请用 HE_PRINT 后在系统对话框预览");
    let (code, msg) = err(run("HE_FLY", JsonValue::Null, &mut mgr, &mut q));
    assert_eq!((code, msg.as_str()), (ErrorCode::MethodNotFound, "未知方法: HE_FLY"));
}

#[test]
fn get_info_answers_each_key() {
    let mut mgr = TaskManager::new();
    let mut q = PrintManager::new(4);
    let info = |key: Option<&str>, mgr: &mut TaskManager, q: &mut PrintManager| {
        let p = match key {
            Some(k) => obj(vec![("key", s(k))]),
            None => JsonValue::Null,
        };
        ok(run("HE_GET_INFO", p, mgr, q))
    };
    assert_eq!(info(None, &mut mgr, &mut q), obj(vec![("key", s("version")), ("value", s("1.1.1"))]));
    assert_eq!(info(Some("serverIp"), &mut mgr, &mut q), obj(vec![("key", s("serverIp")), ("value", s("127.0.0.1"))]));
    assert_eq!(info(Some("status"), &mut mgr, &mut q), obj(vec![("key", s("status")), ("value", s("running"))]));
    assert_eq!(info(Some("queueLength"), &mut mgr, &mut q), obj(vec![("key", s("queueLength")), ("value", num(0))]));
    assert_eq!(info(Some("other"), &mut mgr, &mut q), obj(vec![("key", s("other")), ("value", JsonValue::Null)]));
    match run("HE_GET_INFO", obj(vec![("key", s("printerCount"))]), &mut mgr, &mut q) {
        Step::Ask(HostQuery::PrinterCount) => {}
        other => panic!("unexpected step {other:?}"),
    }
}

fn printer(name: &str) -> PrinterInfo {
    PrinterInfo { name: name.to_string(), driver: None, port: Some("USB001".to_string()), is_default: false }
}

#[test]
fn set_printer_by_name_index_or_default() {
    let mut mgr = TaskManager::new();
    let mut q = PrintManager::new(4);
    ok(run("HE_INIT", JsonValue::Null, &mut mgr, &mut q));
    let r = set_named_printer(obj(vec![("printer", s("XP-80C"))]), true, &mut mgr, &mut q).unwrap();
    assert_eq!(r, obj(vec![("ok", JsonValue::Bool(true)), ("printerName", s("XP-80C"))]));
    match set_named_printer(obj(vec![("printer", s("NoSuchPrinter"))]), false, &mut mgr, &mut q) {
        Err(HeError::Coded { code, message }) => {
            assert_eq!((code, message.as_str()), (ErrorCode::PrinterNotFound, "打印机不存在: NoSuchPrinter"))
        }
        other => panic!("unexpected reply {other:?}"),
    }
    assert_eq!(mgr.current.as_ref().unwrap().printer_name.as_deref(), Some("XP-80C"));
    let (code, _) = err(run("HE_SET_PRINTER", obj(vec![("printer", s(""))]), &mut mgr, &mut q));
    assert_eq!(code, ErrorCode::PrinterNotFound);
    let (code, msg) = err(run("HE_SET_PRINTER", obj(vec![("printer", JsonValue::Bool(true))]), &mut mgr, &mut q));
    assert_eq!((code, msg.as_str()), (ErrorCode::InvalidParam, "printer 参数必须是 string 或 number"));

    let step = run("HE_SET_PRINTER", obj(vec![("printer", num(1))]), &mut mgr, &mut q);
    let query = match step {
        Step::Ask(q @ HostQuery::IndexedPrinterFor { index: 1, .. }) => q,
        other => panic!("unexpected step {other:?}"),
    };
    let r = resume(query, HostAnswer::Printers(Ok(vec![printer("A"), printer("B")])), &mut mgr).unwrap();
    assert_eq!(r, obj(vec![("ok", JsonValue::Bool(true)), ("printerName", s("B"))]));
    assert_eq!(mgr.current.as_ref().unwrap().printer_name.as_deref(), Some("B"));

    let step = run("HE_SET_PRINTER", obj(vec![("printer", num(-1))]), &mut mgr, &mut q);
    let query = match step {
        Step::Ask(q @ HostQuery::DefaultPrinterFor { .. }) => q,
        other => panic!("unexpected step {other:?}"),
    };
    let failed = HeError::coded(ErrorCode::Unknown, "none".to_string());
    match resume(query, HostAnswer::DefaultPrinter(Err(failed)), &mut mgr) {
        Err(HeError::Coded { code, .. }) => assert_eq!(code, ErrorCode::PrinterNotFound),
        other => panic!("unexpected reply {other:?}"),
    }
}

#[test]
fn printer_queries_are_answered_from_the_host() {
    let mut mgr = TaskManager::new();
    let mut q = PrintManager::new(4);
    let query = match run("HE_GET_PRINTERS", JsonValue::Null, &mut mgr, &mut q) {
        Step::Ask(q @ HostQuery::Printers) => q,
        other => panic!("unexpected step {other:?}"),
    };
    let r = resume(query, HostAnswer::Printers(Ok(vec![printer("A")])), &mut mgr).unwrap();
    let details = obj(vec![("name", s("A")), ("driver", JsonValue::Null), ("port", s("USB001")), ("is_default", JsonValue::Bool(false))]);
    assert_eq!(r, obj(vec![("printers", JsonValue::Array(vec![s("A")])), ("details", JsonValue::Array(vec![details]))]));

    let query = match run("HE_HAS_PRINTER", obj(vec![("name", s("A"))]), &mut mgr, &mut q) {
        Step::Ask(q @ HostQuery::HasPrinter { .. }) => q,
        other => panic!("unexpected step {other:?}"),
    };
    let r = resume(query, HostAnswer::HasPrinter(Ok(false)), &mut mgr).unwrap();
    assert_eq!(r, obj(vec![("exists", JsonValue::Bool(false))]));
    let (code, msg) = err(run("HE_HAS_PRINTER", JsonValue::Null, &mut mgr, &mut q));
    assert_eq!((code, msg.as_str()), (ErrorCode::InvalidParam, "缺少 name"));

    let r = resume(HostQuery::DefaultPrinter, HostAnswer::DefaultPrinter(Ok("A".to_string())), &mut mgr).unwrap();
    assert_eq!(r, obj(vec![("name", s("A"))]));
    let r = resume(HostQuery::PrinterCount, HostAnswer::Printers(Ok(vec![printer("A"), printer("B")])), &mut mgr).unwrap();
    assert_eq!(r, obj(vec![("key", s("printerCount")), ("value", num(2))]));
    let failed = HeError::coded(ErrorCode::Unknown, "none".to_string());
    let r = resume(HostQuery::PrinterCount, HostAnswer::Printers(Err(failed)), &mut mgr).unwrap();
    assert_eq!(r, obj(vec![("key", s("printerCount")), ("value", num(0))]));
}

#[test]
fn send_raw_decodes_hex_and_base64() {
    let mut mgr = TaskManager::new();
    let mut q = PrintManager::new(4);
    let p = obj(vec![("printerName", s("XP-80C")), ("data", s("1B 40 0a")), ("encoding", s("hex"))]);
    let query = match run("HE_SEND_RAW", p, &mut mgr, &mut q) {
        Step::Ask(q) => q,
        other => panic!("unexpected step {other:?}"),
    };
    match &query {
        HostQuery::SendRaw { printer, data } => {
            assert_eq!(printer, "XP-80C");
            assert_eq!(data, &vec![0x1b, 0x40, 0x0a]);
        }
        other => panic!("unexpected query {other:?}"),
    }
    let r = resume(query, HostAnswer::Sent(Ok(())), &mut mgr).unwrap();
    assert_eq!(r, obj(vec![("ok", JsonValue::Bool(true)), ("printer", s("XP-80C")), ("bytes", num(3))]));

    let p = obj(vec![("printerName", s("P")), ("data", s("G0A="))]);
    match run("HE_SEND_RAW", p, &mut mgr, &mut q) {
        Step::Ask(HostQuery::SendRaw { data, .. }) => assert_eq!(data, vec![0x1b, 0x40]),
        other => panic!("unexpected step {other:?}"),
    }
    let p = obj(vec![("printerName", s("P")), ("data", s("zz")), ("encoding", s("hex"))]);
    let (code, msg) = err(run("HE_SEND_RAW", p, &mut mgr, &mut q));
    assert_eq!(code, ErrorCode::InvalidParam);
    assert!(msg.starts_with("hex 解析失败: "));
    let p = obj(vec![("printerName", s("P")), ("data", s("***"))]);
    let (code, msg) = err(run("HE_SEND_RAW", p, &mut mgr, &mut q));
    assert_eq!(code, ErrorCode::InvalidParam);
    assert!(msg.starts_with("base64 解析失败: "));
    let (code, msg) = err(run("HE_SEND_RAW", obj(vec![("data", s("00"))]), &mut mgr, &mut q));
    assert_eq!((code, msg.as_str()), (ErrorCode::InvalidParam, "缺少 printerName"));
    let (code, msg) = err(run("HE_SEND_RAW", obj(vec![("printerName", s("P"))]), &mut mgr, &mut q));
    assert_eq!((code, msg.as_str()), (ErrorCode::InvalidParam, "缺少 data"));
}

#[test]
fn a_failed_print_is_answered_as_an_unsuccessful_result() {
    let mut mgr = TaskManager::new();
    let mut q = PrintManager::new(4);
    let r = ok(run("HE_INIT", JsonValue::Null, &mut mgr, &mut q));
    let full = text_of(&r, "fullId");
    let query = match run("HE_PRINT", JsonValue::Null, &mut mgr, &mut q) {
        Step::Ask(query) => query,
        other => panic!("unexpected step {other:?}"),
    };
    let failed = HeError::coded(ErrorCode::PrinterOffline, "无法创建打印机 DC: X".to_string());
    let outcome = TaskResult::from_attempt(full.clone(), Err(failed));
    let r = resume(query, HostAnswer::Printed(outcome), &mut mgr).unwrap();
    let expected = obj(vec![
        ("taskId", s(&full)),
        ("success", JsonValue::Bool(false)),
        ("error", s("[PrinterOffline] 无法创建打印机 DC: X")),
    ]);
    assert_eq!(r, expected);
}

#[test]
fn get_info_task_id_is_the_current_task() {
    let mut mgr = TaskManager::new();
    let mut q = PrintManager::new(4);
    let none = ok(run("HE_GET_INFO", obj(vec![("key", s("taskId"))]), &mut mgr, &mut q));
    assert_eq!(none, obj(vec![("key", s("taskId")), ("value", JsonValue::Null)]));
    let r = ok(run("HE_INIT", JsonValue::Null, &mut mgr, &mut q));
    let full = text_of(&r, "fullId");
    let v = ok(run("HE_GET_INFO", obj(vec![("key", s("taskId"))]), &mut mgr, &mut q));
    assert_eq!(v, obj(vec![("key", s("taskId")), ("value", s(&full))]));
}

#[test]
fn hex_errors_carry_the_parse_error_text() {
    let mut mgr = TaskManager::new();
    let mut q = PrintManager::new(4);
    let p = obj(vec![("printerName", s("P")), ("data", s("zz")), ("encoding", s("hex"))]);
    let (code, msg) = err(run("HE_SEND_RAW", p, &mut mgr, &mut q));
    assert_eq!((code, msg.as_str()), (ErrorCode::InvalidParam, "hex 解析失败: invalid digit found in string"));
}

#[test]
fn a_host_error_is_passed_on_unchanged() {
    let mut mgr = TaskManager::new();
    let failed = HeError::Other("spooler stopped".to_string());
    match resume(HostQuery::Printers, HostAnswer::Printers(Err(failed)), &mut mgr) {
        Err(HeError::Other(t)) => assert_eq!(t, "spooler stopped"),
        other => panic!("unexpected reply {other:?}"),
    }
    let failed = HeError::Other("offline".to_string());
    let q = HostQuery::SendRaw { printer: "P".to_string(), data: vec![1] };
    match resume(q, HostAnswer::Sent(Err(failed)), &mut mgr) {
        Err(HeError::Other(t)) => assert_eq!(t, "offline"),
        other => panic!("unexpected reply {other:?}"),
    }
}
