use heprint::command::HeCommand;
use heprint::error::{ErrorCode, HeError};
use heprint::html::html_to_text;
use heprint::item::PrintItem;
use heprint::json::{JsonValue, Number};
use heprint::queue::PrintManager;
use heprint::router::{dispatch, Step};
use heprint::task::TaskManager;

fn obj(members: Vec<(&str, JsonValue)>) -> JsonValue {
    JsonValue::Object(members.into_iter().map(|(k, v)| (k.to_string(), v)).collect())
}

fn pos(n: u64) -> JsonValue {
    JsonValue::Number(Number::PosInt(n))
}

#[test]
fn every_command_of_the_model_is_routed() {
    let commands = vec![
        HeCommand::HeInit { task_name: String::new() },
        HeCommand::HeAddText { top: 0, left: 0, width: 0, height: 0, text: String::new() },
        HeCommand::HeAddHtml { top: 0, left: 0, width: 0, height: 0, html: String::new() },
        HeCommand::HeAddTable { top: 0, left: 0, width: 0, height: 0, table_html: String::new() },
        HeCommand::HeAddImage { top: 0, left: 0, width: 0, height: 0, src: String::new() },
        HeCommand::HeAddBarcode { top: 0, left: 0, width: 0, height: 0, btype: String::new(), value: String::new() },
        HeCommand::HeAddPdf { top: 0, left: 0, width: 0, height: 0, content: String::new() },
        HeCommand::HeAddLine { top1: 0, left1: 0, top2: 0, left2: 0, line_style: None, line_width: None },
        HeCommand::HeAddRect { top: 0, left: 0, width: 0, height: 0, line_style: None, line_width: None },
        HeCommand::HeSetStyle { name: String::new(), value: JsonValue::Null },
        HeCommand::HeSetPage { orient: 1, width: Number::PosInt(1), height: Number::PosInt(1), name: None },
        HeCommand::HeSetPrinter { printer: JsonValue::Null },
        HeCommand::HeSetCopies { count: 1 },
        HeCommand::HeSetOption { key: String::new(), value: JsonValue::Null },
        HeCommand::HePrint,
        HeCommand::HePrintSilent,
        HeCommand::HePreview,
        HeCommand::HeNewPage,
        HeCommand::HeGetPrinters,
        HeCommand::HeGetDefaultPrinter,
        HeCommand::HeHasPrinter { name: String::new() },
        HeCommand::HeGetInfo { key: String::new() },
        HeCommand::HeOnResult,
        HeCommand::HeSendRaw { printer_name: String::new(), data: String::new(), encoding: None },
        HeCommand::HeVersion,
    ];
    for c in commands {
        let mut mgr = TaskManager::new();
        let mut q = PrintManager::new(1);
        if let Step::Reply(Err(HeError::Coded { code, .. })) = dispatch(c.name(), &JsonValue::Null, &mut mgr, &mut q) {
            assert_ne!(code, ErrorCode::MethodNotFound, "{}", c.name());
        }
    }
}

#[test]
fn html_text_has_no_surrounding_white_space() {
    assert_eq!(html_to_text("  <p>  x  </p>\n\n "), "x");
    assert_eq!(html_to_text("   "), "");
}

#[test]
fn a_style_changes_only_the_last_item() {
    let mut mgr = TaskManager::new();
    let mut q = PrintManager::new(1);
    let run = |m: &str, p: JsonValue, mgr: &mut TaskManager, q: &mut PrintManager| dispatch(m, &p, mgr, q);
    run("HE_INIT", JsonValue::Null, &mut mgr, &mut q);
    run("HE_ADD_TEXT", obj(vec![("top", pos(0)), ("left", pos(0))]), &mut mgr, &mut q);
    run("HE_ADD_TEXT", obj(vec![("top", pos(5)), ("left", pos(5))]), &mut mgr, &mut q);
    run("HE_SET_STYLE", obj(vec![("name", JsonValue::String("Italic".to_string())), ("value", JsonValue::Bool(true))]), &mut mgr, &mut q);
    let items = &mgr.current.as_ref().unwrap().items;
    match (&items[0], &items[1]) {
        (PrintItem::Text { style: a, .. }, PrintItem::Text { style: b, .. }) => {
            assert_eq!(a.italic, None);
            assert_eq!(b.italic, Some(true));
        }
        other => panic!("unexpected items {other:?}"),
    }
}

#[test]
fn copies_keep_the_low_32_bits_of_huge_counts() {
    let mut mgr = TaskManager::new();
    let mut q = PrintManager::new(1);
    dispatch("HE_INIT", &JsonValue::Null, &mut mgr, &mut q);
    dispatch("HE_SET_COPIES", &obj(vec![("count", pos(1 << 32))]), &mut mgr, &mut q);
    assert_eq!(mgr.current.as_ref().unwrap().copies, 0);
    dispatch("HE_SET_COPIES", &obj(vec![("count", pos((1 << 32) + 2))]), &mut mgr, &mut q);
    assert_eq!(mgr.current.as_ref().unwrap().copies, 2);
}

#[test]
fn command_names_are_all_different() {
    let names = [
        "HE_INIT", "HE_ADD_TEXT", "HE_ADD_HTML", "HE_ADD_TABLE", "HE_ADD_IMAGE", "HE_ADD_BARCODE", "HE_ADD_PDF",
        "HE_ADD_LINE", "HE_ADD_RECT", "HE_SET_STYLE", "HE_SET_PAGE", "HE_SET_PRINTER", "HE_SET_COPIES",
        "HE_SET_OPTION", "HE_PRINT", "HE_PRINT_SILENT", "HE_PREVIEW", "HE_NEW_PAGE", "HE_GET_PRINTERS",
        "HE_GET_DEFAULT_PRINTER", "HE_HAS_PRINTER", "HE_GET_INFO", "HE_ON_RESULT", "HE_SEND_RAW", "HE_VERSION",
    ];
    assert_eq!(HeCommand::HeSetCopies { count: 1 }.name(), "HE_SET_COPIES");
    let mut sorted = names.to_vec();
    sorted.sort();
    sorted.dedup();
    assert_eq!(sorted.len(), 25);
}

#[test]
fn taking_an_opened_task_by_its_short_id_restores_the_list() {
    let mut mgr = TaskManager::new();
    let mut q = PrintManager::new(1);
    let first = match dispatch("HE_OPEN_TASK", &JsonValue::Null, &mut mgr, &mut q) {
        Step::Reply(Ok(v)) => v,
        other => panic!("unexpected {other:?}"),
    };
    let before: Vec<String> = mgr.tasks.iter().map(|t| t.task_id.clone()).collect();
    let short = match dispatch("HE_OPEN_TASK", &obj(vec![("taskName", JsonValue::String("n".to_string()))]), &mut mgr, &mut q) {
        Step::Reply(Ok(v)) => v.get("taskId").unwrap().as_str().unwrap().to_string(),
        other => panic!("unexpected {other:?}"),
    };
    let t = mgr.take_task(&short).unwrap();
    assert_eq!(t.short_id.as_deref(), Some(short.as_str()));
    assert_eq!(t.name, "n");
    let after: Vec<String> = mgr.tasks.iter().map(|t| t.task_id.clone()).collect();
    assert_eq!(after, before);
    assert!(mgr.take_task(&short).is_none());
    assert!(first.get("taskId").is_some());
    let full = match dispatch("HE_OPEN_TASK", &JsonValue::Null, &mut mgr, &mut q) {
        Step::Reply(Ok(v)) => v.get("fullId").unwrap().as_str().unwrap().to_string(),
        other => panic!("unexpected {other:?}"),
    };
    let t = mgr.take_task(&full).unwrap();
    assert_eq!(t.task_id, full);
    let after_full: Vec<String> = mgr.tasks.iter().map(|t| t.task_id.clone()).collect();
    assert_eq!(after_full, before);
}
