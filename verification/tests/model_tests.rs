use heprint::command::HeCommand;
use heprint::error::{ErrorCode, HeError};
use heprint::item::{ItemKind, PrintItem};
use heprint::json::{JsonValue, Number};
use heprint::printer::{PrinterInfo, PrinterRegistry};
use heprint::queue::PrintManager;
use heprint::style::{parse_bool, Alignment, ItemType, PrintStyle};
use heprint::task::{PrintTask, TaskManager, TaskResult, TaskStatus};
use heprint::types::{LineStyle, Orient, Rect};

#[test]
fn error_codes_numbers_names_and_messages() {
    assert_eq!(ErrorCode::Success.value(), 0);
    assert_eq!(ErrorCode::Unknown.value(), -1);
    assert_eq!(ErrorCode::InvalidJsonRpc.value(), 1003);
    assert_eq!(ErrorCode::TaskNotFound.value(), 2001);
    assert_eq!(ErrorCode::DataTooLarge.value(), 4005);
    assert_eq!(ErrorCode::PrinterNotFound.message(), "打印机不存在");
    assert_eq!(ErrorCode::PdfDecodeFailed.name(), "PdfDecodeFailed");
    assert_eq!(HeError::code(ErrorCode::TaskEmpty).to_message(), "[TaskEmpty] 任务为空，无内容可打印");
    assert_eq!(HeError::coded(ErrorCode::InvalidParam, "x".to_string()).error_code(), ErrorCode::InvalidParam);
    assert_eq!(HeError::Other("y".to_string()).error_code(), ErrorCode::Unknown);
    assert_eq!(HeError::Other("y".to_string()).to_message(), "y");
    let io = HeError::Io(std::io::Error::new(std::io::ErrorKind::Other, "disk"));
    assert_eq!(io.to_message(), "IO error: disk");
}

#[test]
fn command_names() {
    assert_eq!(HeCommand::HeInit { task_name: "t".to_string() }.name(), "HE_INIT");
    assert_eq!(HeCommand::HeSetCopies { count: 2 }.name(), "HE_SET_COPIES");
    assert_eq!(HeCommand::HeGetDefaultPrinter.name(), "HE_GET_DEFAULT_PRINTER");
    assert_eq!(HeCommand::HeVersion.name(), "HE_VERSION");
}

#[test]
fn numbers_select_enums() {
    assert_eq!(Orient::from(2), Orient::Landscape);
    assert_eq!(Orient::from(3), Orient::Roll);
    assert_eq!(Orient::from(9), Orient::Portrait);
    assert_eq!(Alignment::from(2), Alignment::Center);
    assert_eq!(Alignment::from(3), Alignment::Right);
    assert_eq!(Alignment::from(0), Alignment::Left);
    assert_eq!(ItemType::from(4), ItemType::Sequence);
    assert_eq!(ItemType::from(7), ItemType::Normal);
    assert_eq!(LineStyle::parse("DASHED"), LineStyle::Dashed);
    assert_eq!(LineStyle::parse("dotted"), LineStyle::Dotted);
    assert_eq!(LineStyle::parse("wavy"), LineStyle::Solid);
    assert_eq!(LineStyle::default(), LineStyle::Solid);
}

#[test]
fn flags_read_from_json() {
    assert!(parse_bool(&JsonValue::Bool(true)));
    assert!(parse_bool(&JsonValue::Number(Number::PosInt(1))));
    assert!(!parse_bool(&JsonValue::Number(Number::PosInt(0))));
    assert!(!parse_bool(&JsonValue::String("true".to_string())));
}

#[test]
fn items_report_kind_and_bounds() {
    let t = PrintItem::Table { bounds: Rect::new(1, 2, 3, 4), style: PrintStyle::new(), html: String::new() };
    assert_eq!(t.kind(), ItemKind::Table);
    assert_eq!(t.bounds(), Some(Rect::new(1, 2, 3, 4)));
    let line = PrintItem::Line {
        x1: 10,
        y1: 5,
        x2: 2,
        y2: 8,
        style: PrintStyle::new(),
        line_style: LineStyle::Solid,
        line_width: Number::PosInt(1),
    };
    assert_eq!(line.kind(), ItemKind::Line);
    assert_eq!(line.bounds(), Some(Rect::new(5, 2, 8, 3)));
    assert_eq!(PrintItem::PageBreak.bounds(), None);
    let mut it = PrintItem::PageBreak;
    assert!(it.style_mut().is_none());
}

#[test]
fn task_results() {
    let ok = TaskResult::success("a".to_string(), 3);
    assert!(ok.success && ok.error.is_none() && ok.pages == Some(3));
    let bad = TaskResult::failure("a".to_string(), "jam".to_string());
    assert!(!bad.success && bad.error.as_deref() == Some("jam") && bad.pages.is_none());
    assert_eq!(TaskStatus::Printing.name(), "printing");
}

#[test]
fn tasks_start_empty_with_defaults() {
    let t = PrintTask::default();
    assert_eq!(t.name, "untitled");
    assert_eq!(t.copies, 1);
    assert!(t.is_empty());
    assert_eq!(t.page.orient, Orient::Portrait);
    assert_eq!(t.page.width_mm, Number::Float(210.0f64.to_bits()));
    assert_eq!(t.page.height_mm, Number::Float(297.0f64.to_bits()));
    assert_eq!(t.page.name.as_deref(), Some("A4"));
    let mut t = PrintTask::new("x".to_string());
    t.push_item(PrintItem::PageBreak);
    assert!(t.is_empty());
    t.set_option("a".to_string(), JsonValue::Null);
    t.set_option("a".to_string(), JsonValue::Bool(true));
    assert_eq!(t.options.len(), 1);
    assert!(t.last_item_mut().is_some());
}

#[test]
fn manager_finds_tasks_by_short_or_full_id() {
    let mut mgr = TaskManager::default();
    let a = mgr.open_task("a".to_string());
    let b = mgr.open_task("b".to_string());
    assert_eq!((a.as_str(), b.as_str()), ("T_001", "T_002"));
    let full_a = mgr.tasks[0].task_id.clone();
    assert_eq!(mgr.get_task_mut(&full_a).unwrap().name, "a");
    assert_eq!(mgr.get_task_mut("T_002").unwrap().name, "b");
    assert!(mgr.get_task_mut("T_003").is_none());
    let list = mgr.list_tasks();
    assert_eq!(list[1], (mgr.tasks[1].task_id.clone(), "T_002".to_string()));
    assert_eq!(mgr.take_task("T_001").unwrap().name, "a");
    assert!(mgr.close_task("T_002"));
    assert!(!mgr.close_task("T_002"));
    assert!(mgr.take().is_none());
    assert!(mgr.current_mut().is_none());
}

#[test]
fn queue_hands_out_jobs_in_order() {
    let mut q = PrintManager::new(2);
    let a = q.submit(PrintTask::new("a".to_string()), true);
    let b = q.submit(PrintTask::new("b".to_string()), false);
    assert_eq!(q.queue_len(), 2);
    let first = q.next_job().unwrap();
    assert_eq!(first.job_id, a);
    assert_eq!(q.running_count(), 1);
    let second = q.next_job().unwrap();
    assert_eq!(second.job_id, b);
    assert!(q.next_job().is_none());
    q.finish(&first);
    assert_eq!(q.running_count(), 1);
    q.finish(&second);
    assert_eq!(q.running_count(), 0);
}

#[test]
fn registry_matches_names_without_case() {
    let mut reg = PrinterRegistry::new();
    assert!(reg.names().is_empty());
    reg.printers.push(PrinterInfo { name: "XP-80C".to_string(), driver: None, port: None, is_default: true });
    assert!(reg.has("xp-80c"));
    assert!(!reg.has("xp-80"));
    assert_eq!(reg.names(), vec!["XP-80C".to_string()]);
    let j = reg.printers[0].to_json();
    assert_eq!(j.get("is_default"), Some(&JsonValue::Bool(true)));
}

#[test]
fn wrapped_json_errors_are_described() {
    let e = serde_json::from_str::<serde_json::Value>("{").unwrap_err();
    let text = HeError::Json(e).to_message();
    assert!(text.starts_with("JSON error: "));
    assert!(text.len() > "JSON error: ".len());
}
