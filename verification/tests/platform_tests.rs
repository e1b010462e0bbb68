use heprint::error::{ErrorCode, HeError};
use heprint::platform::{enum_printers, get_default_printer, has_printer, print_task, send_raw_to_printer};
use heprint::task::PrintTask;

fn message(e: HeError) -> (ErrorCode, String) {
    match e {
        HeError::Coded { code, message } => (code, message),
        other => panic!("unexpected {other:?}"),
    }
}

#[test]
fn a_host_without_printing_refuses_or_finds_nothing() {
    assert_eq!(message(enum_printers().unwrap_err()), (ErrorCode::Unknown, "本平台暂不支持打印（v1 仅支持 Windows）".to_string()));
    assert_eq!(message(get_default_printer().unwrap_err()), (ErrorCode::Unknown, "本平台暂不支持打印".to_string()));
    assert_eq!(has_printer("XP-80C").unwrap(), false);
    assert_eq!(message(print_task(PrintTask::new("t".to_string()), true).unwrap_err()).0, ErrorCode::Unknown);
    assert_eq!(message(send_raw_to_printer("P", &[1]).unwrap_err()).1, "本平台暂不支持打印");
}
