//! The print system of a host that has none: the printer queries report
//! that printing is not supported here, and no printer is ever found.
//! Hosts with a print system answer these queries themselves.

use vstd::prelude::*;
use crate::error::{ErrorCode, HeError, is_coded};
use crate::printer::PrinterInfo;
use crate::task::{PrintTask, TaskResult};

verus! {

/// The message of a query that this host cannot answer.
pub open spec fn unsupported_msg() -> Seq<char> {
    "本平台暂不支持打印"@
}

/// The system's printers: always refused here.
pub fn enum_printers() -> (r: Result<Vec<PrinterInfo>, HeError>)
    ensures
        r matches Err(e) && is_coded(e, ErrorCode::Unknown, "本平台暂不支持打印（v1 仅支持 Windows）"@),
{
    Err(HeError::coded(ErrorCode::Unknown, "本平台暂不支持打印（v1 仅支持 Windows）".to_owned()))
}

/// The system's default printer: always refused here.
pub fn get_default_printer() -> (r: Result<String, HeError>)
    ensures
        r matches Err(e) && is_coded(e, ErrorCode::Unknown, unsupported_msg()),
{
    Err(HeError::coded(ErrorCode::Unknown, "本平台暂不支持打印".to_owned()))
}

/// Whether a printer of this name exists: never here.
pub fn has_printer(name: &str) -> (r: Result<bool, HeError>)
    ensures
        r == Ok::<bool, HeError>(false),
{
    Ok(false)
}

/// Printing a task: always refused here.
pub fn print_task(task: PrintTask, silent: bool) -> (r: Result<TaskResult, HeError>)
    ensures
        r matches Err(e) && is_coded(e, ErrorCode::Unknown, unsupported_msg()),
{
    Err(HeError::coded(ErrorCode::Unknown, "本平台暂不支持打印".to_owned()))
}

/// Sending raw bytes to a printer: always refused here.
pub fn send_raw_to_printer(printer_name: &str, data: &[u8]) -> (r: Result<(), HeError>)
    ensures
        r matches Err(e) && is_coded(e, ErrorCode::Unknown, unsupported_msg()),
{
    Err(HeError::coded(ErrorCode::Unknown, "本平台暂不支持打印".to_owned()))
}

} // verus!
