//! Error codes and the library's error type.

use vstd::prelude::*;
use vstd::string::StringExecFns;

verus! {

/// Error codes of the service protocol.
#[derive(Debug, Clone, Copy, PartialEq, Eq, Structural)]
pub enum ErrorCode {
    Success,
    Unknown,
    Timeout,
    ConnectionTimeout,
    ConnectionRefused,
    InvalidJsonRpc,
    MethodNotFound,
    InvalidParam,
    TaskNotFound,
    TaskEmpty,
    PrinterNotFound,
    PrinterOffline,
    PaperNotLoaded,
    PrintFailed,
    DuplexNotSupported,
    WebView2NotInstalled,
    HtmlRenderTimeout,
    ImageDecodeFailed,
    FileNotFound,
    InvalidBarcodeType,
    PdfDecodeFailed,
    DataTooLarge,
}

/// The numeric value of each code on the wire.
pub open spec fn code_number(c: ErrorCode) -> int {
    match c {
        ErrorCode::Success => 0,
        ErrorCode::Unknown => -1,
        ErrorCode::Timeout => -2,
        ErrorCode::ConnectionTimeout => 1001,
        ErrorCode::ConnectionRefused => 1002,
        ErrorCode::InvalidJsonRpc => 1003,
        ErrorCode::MethodNotFound => 1004,
        ErrorCode::InvalidParam => 2003,
        ErrorCode::TaskNotFound => 2001,
        ErrorCode::TaskEmpty => 2002,
        ErrorCode::PrinterNotFound => 2004,
        ErrorCode::PrinterOffline => 2005,
        ErrorCode::PaperNotLoaded => 2006,
        ErrorCode::PrintFailed => 2007,
        ErrorCode::DuplexNotSupported => 2008,
        ErrorCode::WebView2NotInstalled => 3001,
        ErrorCode::HtmlRenderTimeout => 3002,
        ErrorCode::ImageDecodeFailed => 4001,
        ErrorCode::FileNotFound => 4002,
        ErrorCode::InvalidBarcodeType => 4003,
        ErrorCode::PdfDecodeFailed => 4004,
        ErrorCode::DataTooLarge => 4005,
    }
}

impl ErrorCode {
    /// The numeric value of the code, as sent in JSON-RPC error objects.
    pub fn value(&self) -> (r: i32)
        ensures
            r == code_number(*self),
    {
        match self {
            ErrorCode::Success => 0,
            ErrorCode::Unknown => -1,
            ErrorCode::Timeout => -2,
            ErrorCode::ConnectionTimeout => 1001,
            ErrorCode::ConnectionRefused => 1002,
            ErrorCode::InvalidJsonRpc => 1003,
            ErrorCode::MethodNotFound => 1004,
            ErrorCode::InvalidParam => 2003,
            ErrorCode::TaskNotFound => 2001,
            ErrorCode::TaskEmpty => 2002,
            ErrorCode::PrinterNotFound => 2004,
            ErrorCode::PrinterOffline => 2005,
            ErrorCode::PaperNotLoaded => 2006,
            ErrorCode::PrintFailed => 2007,
            ErrorCode::DuplexNotSupported => 2008,
            ErrorCode::WebView2NotInstalled => 3001,
            ErrorCode::HtmlRenderTimeout => 3002,
            ErrorCode::ImageDecodeFailed => 4001,
            ErrorCode::FileNotFound => 4002,
            ErrorCode::InvalidBarcodeType => 4003,
            ErrorCode::PdfDecodeFailed => 4004,
            ErrorCode::DataTooLarge => 4005,
        }
    }
}


/// The human-readable message that goes with each code.
pub open spec fn code_message(c: ErrorCode) -> Seq<char> {
    match c {
        ErrorCode::Success => "OK"@,
        ErrorCode::Unknown => "未知错误"@,
        ErrorCode::Timeout => "操作超时"@,
        ErrorCode::ConnectionTimeout => "连接超时"@,
        ErrorCode::ConnectionRefused => "连接被拒绝"@,
        ErrorCode::InvalidJsonRpc => "JSON-RPC 格式错误"@,
        ErrorCode::MethodNotFound => "方法不存在"@,
        ErrorCode::InvalidParam => "参数无效"@,
        ErrorCode::TaskNotFound => "任务不存在"@,
        ErrorCode::TaskEmpty => "任务为空，无内容可打印"@,
        ErrorCode::PrinterNotFound => "打印机不存在"@,
        ErrorCode::PrinterOffline => "打印机脱机或未就绪"@,
        ErrorCode::PaperNotLoaded => "缺纸"@,
        ErrorCode::PrintFailed => "打印失败"@,
        ErrorCode::DuplexNotSupported => "不支持双面打印"@,
        ErrorCode::WebView2NotInstalled => "WebView2 运行时未安装"@,
        ErrorCode::HtmlRenderTimeout => "HTML 渲染超时"@,
        ErrorCode::ImageDecodeFailed => "图片解码失败"@,
        ErrorCode::FileNotFound => "文件不存在"@,
        ErrorCode::InvalidBarcodeType => "不支持的条码类型"@,
        ErrorCode::PdfDecodeFailed => "PDF 解码失败"@,
        ErrorCode::DataTooLarge => "数据过大"@,
    }
}

/// The name of each code as `{:?}` prints it.
pub open spec fn code_name(c: ErrorCode) -> Seq<char> {
    match c {
        ErrorCode::Success => "Success"@,
        ErrorCode::Unknown => "Unknown"@,
        ErrorCode::Timeout => "Timeout"@,
        ErrorCode::ConnectionTimeout => "ConnectionTimeout"@,
        ErrorCode::ConnectionRefused => "ConnectionRefused"@,
        ErrorCode::InvalidJsonRpc => "InvalidJsonRpc"@,
        ErrorCode::MethodNotFound => "MethodNotFound"@,
        ErrorCode::InvalidParam => "InvalidParam"@,
        ErrorCode::TaskNotFound => "TaskNotFound"@,
        ErrorCode::TaskEmpty => "TaskEmpty"@,
        ErrorCode::PrinterNotFound => "PrinterNotFound"@,
        ErrorCode::PrinterOffline => "PrinterOffline"@,
        ErrorCode::PaperNotLoaded => "PaperNotLoaded"@,
        ErrorCode::PrintFailed => "PrintFailed"@,
        ErrorCode::DuplexNotSupported => "DuplexNotSupported"@,
        ErrorCode::WebView2NotInstalled => "WebView2NotInstalled"@,
        ErrorCode::HtmlRenderTimeout => "HtmlRenderTimeout"@,
        ErrorCode::ImageDecodeFailed => "ImageDecodeFailed"@,
        ErrorCode::FileNotFound => "FileNotFound"@,
        ErrorCode::InvalidBarcodeType => "InvalidBarcodeType"@,
        ErrorCode::PdfDecodeFailed => "PdfDecodeFailed"@,
        ErrorCode::DataTooLarge => "DataTooLarge"@,
    }
}

impl ErrorCode {
    /// The message of the code.
    pub fn message(&self) -> (r: &'static str)
        ensures
            r@ == code_message(*self),
    {
        match self {
            ErrorCode::Success => "OK",
            ErrorCode::Unknown => "未知错误",
            ErrorCode::Timeout => "操作超时",
            ErrorCode::ConnectionTimeout => "连接超时",
            ErrorCode::ConnectionRefused => "连接被拒绝",
            ErrorCode::InvalidJsonRpc => "JSON-RPC 格式错误",
            ErrorCode::MethodNotFound => "方法不存在",
            ErrorCode::InvalidParam => "参数无效",
            ErrorCode::TaskNotFound => "任务不存在",
            ErrorCode::TaskEmpty => "任务为空，无内容可打印",
            ErrorCode::PrinterNotFound => "打印机不存在",
            ErrorCode::PrinterOffline => "打印机脱机或未就绪",
            ErrorCode::PaperNotLoaded => "缺纸",
            ErrorCode::PrintFailed => "打印失败",
            ErrorCode::DuplexNotSupported => "不支持双面打印",
            ErrorCode::WebView2NotInstalled => "WebView2 运行时未安装",
            ErrorCode::HtmlRenderTimeout => "HTML 渲染超时",
            ErrorCode::ImageDecodeFailed => "图片解码失败",
            ErrorCode::FileNotFound => "文件不存在",
            ErrorCode::InvalidBarcodeType => "不支持的条码类型",
            ErrorCode::PdfDecodeFailed => "PDF 解码失败",
            ErrorCode::DataTooLarge => "数据过大",
        }
    }

    /// The variant's name, as the derived `Debug` writes it.
    pub fn name(&self) -> (r: &'static str)
        ensures
            r@ == code_name(*self),
    {
        match self {
            ErrorCode::Success => "Success",
            ErrorCode::Unknown => "Unknown",
            ErrorCode::Timeout => "Timeout",
            ErrorCode::ConnectionTimeout => "ConnectionTimeout",
            ErrorCode::ConnectionRefused => "ConnectionRefused",
            ErrorCode::InvalidJsonRpc => "InvalidJsonRpc",
            ErrorCode::MethodNotFound => "MethodNotFound",
            ErrorCode::InvalidParam => "InvalidParam",
            ErrorCode::TaskNotFound => "TaskNotFound",
            ErrorCode::TaskEmpty => "TaskEmpty",
            ErrorCode::PrinterNotFound => "PrinterNotFound",
            ErrorCode::PrinterOffline => "PrinterOffline",
            ErrorCode::PaperNotLoaded => "PaperNotLoaded",
            ErrorCode::PrintFailed => "PrintFailed",
            ErrorCode::DuplexNotSupported => "DuplexNotSupported",
            ErrorCode::WebView2NotInstalled => "WebView2NotInstalled",
            ErrorCode::HtmlRenderTimeout => "HtmlRenderTimeout",
            ErrorCode::ImageDecodeFailed => "ImageDecodeFailed",
            ErrorCode::FileNotFound => "FileNotFound",
            ErrorCode::InvalidBarcodeType => "InvalidBarcodeType",
            ErrorCode::PdfDecodeFailed => "PdfDecodeFailed",
            ErrorCode::DataTooLarge => "DataTooLarge",
        }
    }
}


/// `std::io::Error`, carried by [`HeError::Io`].
#[verifier::external_type_specification]
#[verifier::external_body]
pub struct ExIoError(std::io::Error);

/// `serde_json::Error`, carried by [`HeError::Json`].
#[verifier::external_type_specification]
#[verifier::external_body]
pub struct ExJsonError(serde_json::Error);

/// The library's error type.
#[derive(Debug)]
pub enum HeError {
    /// An error with a protocol code and a message.
    Coded { code: ErrorCode, message: String },
    /// An I/O failure.
    Io(std::io::Error),
    /// A JSON failure.
    Json(serde_json::Error),
    /// Any other failure, described by its text.
    Other(String),
}

/// The library's result type.
pub type Result<T> = core::result::Result<T, HeError>;

/// `<std::io::Error as Display>::fmt`, through `to_string`. Nothing is
/// claimed of the text: it depends on the operating system's message.
#[verifier::external_body]
fn io_error_text(e: &std::io::Error) -> String {
    e.to_string()
}

/// `<serde_json::Error as Display>::fmt`, through `to_string`. Nothing is
/// claimed of the text.
#[verifier::external_body]
fn json_error_text(e: &serde_json::Error) -> String {
    e.to_string()
}

/// The code an error reports: its own for a coded error, `Unknown` otherwise.
pub open spec fn error_code_of(e: HeError) -> ErrorCode {
    match e {
        HeError::Coded { code, .. } => code,
        _ => ErrorCode::Unknown,
    }
}

/// The text of a coded error: `[Name] message`.
pub open spec fn coded_text(code: ErrorCode, message: Seq<char>) -> Seq<char> {
    "["@ + code_name(code) + "] "@ + message
}

/// Whether `s` is the text of `e` as its `Display` writes it: `[Name]
/// message` for a coded error, `IO error: ...` and `JSON error: ...` for
/// wrapped ones (the rest is the wrapped error's own text), and the text
/// itself for `Other`.
pub open spec fn is_message_of(e: HeError, s: Seq<char>) -> bool {
    match e {
        HeError::Coded { code, message } => s == coded_text(code, message@),
        HeError::Io(_) => s.len() >= 10 && s.subrange(0, 10) == "IO error: "@,
        HeError::Json(_) => s.len() >= 12 && s.subrange(0, 12) == "JSON error: "@,
        HeError::Other(t) => s == t@,
    }
}

/// Whether `e` is the coded error with exactly this code and message.
pub open spec fn is_coded(e: HeError, code: ErrorCode, message: Seq<char>) -> bool {
    match e {
        HeError::Coded { code: c, message: m } => c == code && m@ == message,
        _ => false,
    }
}

impl HeError {
    /// A coded error carrying the code's own message.
    pub fn code(code: ErrorCode) -> (e: HeError)
        ensures
            is_coded(e, code, code_message(code)),
    {
        HeError::Coded { code, message: code.message().to_owned() }
    }

    /// A coded error with a message of the caller's.
    pub fn coded(code: ErrorCode, msg: String) -> (e: HeError)
        ensures
            is_coded(e, code, msg@),
    {
        HeError::Coded { code, message: msg }
    }

    /// The code the error reports.
    pub fn error_code(&self) -> (c: ErrorCode)
        ensures
            c == error_code_of(*self),
    {
        match self {
            HeError::Coded { code, .. } => *code,
            _ => ErrorCode::Unknown,
        }
    }

    /// The error's text, as its `Display` writes it: `[Name] message` for a
    /// coded error, `IO error: ...` and `JSON error: ...` for wrapped ones,
    /// and the text itself for `Other`.
    pub fn to_message(&self) -> (s: String)
        ensures
            is_message_of(*self, s@),
    {
        match self {
            HeError::Coded { code, message } => {
                let s = "[".to_owned().concat(code.name()).concat("] ").concat(message.as_str());
                s
            },
            HeError::Io(e) => {
                let t = io_error_text(e);
                let s = "IO error: ".to_owned().concat(t.as_str());
                proof { reveal_strlit("IO error: "); }
                assert(s@.subrange(0, 10) =~= "IO error: "@);
                s
            },
            HeError::Json(e) => {
                let t = json_error_text(e);
                let s = "JSON error: ".to_owned().concat(t.as_str());
                proof { reveal_strlit("JSON error: "); }
                assert(s@.subrange(0, 12) =~= "JSON error: "@);
                s
            },
            HeError::Other(t) => t.clone(),
        }
    }
}

/// Two different codes never share a number.
pub proof fn code_numbers_are_distinct(a: ErrorCode, b: ErrorCode)
    requires
        a != b,
    ensures
        code_number(a) != code_number(b),
{
}

} // verus!
