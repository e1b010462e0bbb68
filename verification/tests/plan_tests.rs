use heprint::error::{ErrorCode, HeError};
use heprint::item::PrintItem;
use heprint::plan::{count_pages, pdf_as_image, plan_pages, plan_print, printed_result, rgb_to_colorref, text_look, PageStep, TextAlign};
use heprint::style::{Alignment, PrintStyle};
use heprint::task::PrintTask;
use heprint::types::Rect;

fn text(t: &str) -> PrintItem {
    PrintItem::Text { bounds: Rect::new(0, 0, 10, 10), style: PrintStyle::default(), text: t.to_string() }
}

#[test]
fn page_breaks_split_pages() {
    let items = vec![PrintItem::PageBreak, text("a"), text("b"), PrintItem::PageBreak, PrintItem::PageBreak, text("c")];
    let steps = plan_pages(&items);
    assert_eq!(
        steps,
        vec![
            PageStep::Start,
            PageStep::Draw(1),
            PageStep::Draw(2),
            PageStep::End,
            PageStep::Start,
            PageStep::Draw(5),
            PageStep::End,
        ]
    );
    assert_eq!(count_pages(&steps), 2);
    assert_eq!(count_pages(&plan_pages(&vec![PrintItem::PageBreak])), 0);
}

#[test]
fn print_plan_chooses_printer_and_copies() {
    let mut task = PrintTask::new("t".to_string());
    task.items.push(text("a"));
    task.copies = 0;
    let plan = plan_print(&task, Some("Default".to_string())).unwrap();
    assert_eq!(plan.printer, "Default");
    assert_eq!(plan.copies, 1);
    assert_eq!(plan.steps, vec![PageStep::Start, PageStep::Draw(0), PageStep::End]);
    task.printer_name = Some("Own".to_string());
    assert_eq!(plan_print(&task, Some("Default".to_string())).unwrap().printer, "Own");
    task.printer_name = Some(String::new());
    match plan_print(&task, Some("Default".to_string())) {
        Err(HeError::Coded { code, .. }) => assert_eq!(code, ErrorCode::PrinterNotFound),
        other => panic!("unexpected {other:?}"),
    }
    task.printer_name = None;
    match plan_print(&task, None) {
        Err(HeError::Coded { code, .. }) => assert_eq!(code, ErrorCode::PrinterNotFound),
        other => panic!("unexpected {other:?}"),
    }
    let mut empty = PrintTask::new("e".to_string());
    empty.items.push(PrintItem::PageBreak);
    match plan_print(&empty, Some("P".to_string())) {
        Err(HeError::Coded { code, message }) => {
            assert_eq!(code, ErrorCode::TaskEmpty);
            assert_eq!(message, "任务为空，无内容可打印");
        }
        other => panic!("unexpected {other:?}"),
    }
}

#[test]
fn colorref_is_bgr() {
    assert_eq!(rgb_to_colorref([0x12, 0x34, 0x56]), 0x0056_3412);
    assert_eq!(rgb_to_colorref([255, 0, 0]), 0xff);
}

#[test]
fn text_look_defaults_and_overrides() {
    let look = text_look(&PrintStyle::default(), Rect::new(0, 0, 0, 10));
    assert_eq!(look.font_name, "Microsoft YaHei");
    assert_eq!(look.weight, 400);
    assert!(!look.italic && !look.underline && !look.wrap);
    assert_eq!(look.color, 0);
    assert_eq!(look.align, TextAlign::Left);
    let mut st = PrintStyle::default();
    st.bold = Some(true);
    st.alignment = Some(Alignment::Right);
    st.font_color = Some([0, 0, 255]);
    st.font_name = Some("SimSun".to_string());
    let look = text_look(&st, Rect::new(0, 0, 10, 10));
    assert_eq!(look.font_name, "SimSun");
    assert_eq!(look.weight, 700);
    assert_eq!(look.color, 0xff0000);
    assert_eq!(look.align, TextAlign::Right);
    assert!(look.wrap);
}

#[test]
fn pdf_items_drawn_as_images() {
    assert!(pdf_as_image("data:image/png;base64,AAAA"));
    assert!(pdf_as_image("data:application/pdf;base64,AAAA"));
    assert!(!pdf_as_image("C:\\a.pdf"));
}

#[test]
fn printed_pages_are_copies_times_pages_of_one_copy() {
    let mut task = PrintTask::new("t".to_string());
    task.items = vec![text("a"), PrintItem::PageBreak, text("b")];
    task.copies = 2;
    let plan = plan_print(&task, Some("P".to_string())).unwrap();
    let r = printed_result(task.task_id.clone(), &plan).unwrap();
    assert!(r.success && r.error.is_none());
    assert_eq!(r.pages, Some(4));
    assert_eq!(r.task_id, task.task_id);
    task.items = vec![PrintItem::PageBreak, text("a"), PrintItem::PageBreak];
    task.copies = 0;
    let plan = plan_print(&task, Some("P".to_string())).unwrap();
    assert_eq!(printed_result(String::new(), &plan).unwrap().pages, Some(1));
}

#[test]
fn a_task_copy_keeps_everything() {
    let mut task = PrintTask::new("t".to_string());
    task.items = vec![text("a"), PrintItem::PageBreak];
    task.printer_name = Some("P".to_string());
    task.copies = 3;
    let c = task.duplicate();
    assert_eq!(c.task_id, task.task_id);
    assert_eq!(c.name, "t");
    assert_eq!(c.items.len(), 2);
    assert_eq!(c.printer_name.as_deref(), Some("P"));
    assert_eq!(c.copies, 3);
}
