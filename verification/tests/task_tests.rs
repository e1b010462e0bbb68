use heprint::item::PrintItem;
use heprint::style::PrintStyle;
use heprint::task::TaskManager;
use heprint::types::Rect;

#[test]
fn test_task_init_and_push() {
    let mut mgr = TaskManager::new();
    let task = mgr.init("test".to_string());
    assert_eq!(task.name, "test");
    assert!(task.items.is_empty());

    task.push_item(PrintItem::Text {
        bounds: Rect::new(0, 0, 100, 100),
        style: PrintStyle::default(),
        text: "Hello".to_string(),
    });
    assert_eq!(task.items.len(), 1);
}
