//! The protocol's commands as a data model.

use vstd::prelude::*;
use crate::json::{JsonValue, Number};

verus! {

/// The commands of the protocol, with their parameters. Sizes in mm and
/// line widths keep the JSON number they were given.
#[derive(Debug)]
#[allow(inconsistent_fields)]
pub enum HeCommand {
    HeInit { task_name: String },
    HeAddText { top: i32, left: i32, width: i32, height: i32, text: String },
    HeAddHtml { top: i32, left: i32, width: i32, height: i32, html: String },
    HeAddTable { top: i32, left: i32, width: i32, height: i32, table_html: String },
    HeAddImage { top: i32, left: i32, width: i32, height: i32, src: String },
    HeAddBarcode { top: i32, left: i32, width: i32, height: i32, btype: String, value: String },
    HeAddPdf { top: i32, left: i32, width: i32, height: i32, content: String },
    HeAddLine {
        top1: i32,
        left1: i32,
        top2: i32,
        left2: i32,
        line_style: Option<String>,
        line_width: Option<Number>,
    },
    HeAddRect {
        top: i32,
        left: i32,
        width: i32,
        height: i32,
        line_style: Option<String>,
        line_width: Option<Number>,
    },
    HeSetStyle { name: String, value: JsonValue },
    HeSetPage { orient: i32, width: Number, height: Number, name: Option<String> },
    HeSetPrinter { printer: JsonValue },
    HeSetCopies { count: u32 },
    HeSetOption { key: String, value: JsonValue },
    HePrint,
    HePrintSilent,
    HePreview,
    HeNewPage,
    HeGetPrinters,
    HeGetDefaultPrinter,
    HeHasPrinter { name: String },
    HeGetInfo { key: String },
    HeOnResult,
    HeSendRaw { printer_name: String, data: String, encoding: Option<String> },
    HeVersion,
}

/// The method name of a command.
pub open spec fn command_name(c: HeCommand) -> Seq<char> {
    match c {
        HeCommand::HeInit { .. } => "HE_INIT"@,
        HeCommand::HeAddText { .. } => "HE_ADD_TEXT"@,
        HeCommand::HeAddHtml { .. } => "HE_ADD_HTML"@,
        HeCommand::HeAddTable { .. } => "HE_ADD_TABLE"@,
        HeCommand::HeAddImage { .. } => "HE_ADD_IMAGE"@,
        HeCommand::HeAddBarcode { .. } => "HE_ADD_BARCODE"@,
        HeCommand::HeAddPdf { .. } => "HE_ADD_PDF"@,
        HeCommand::HeAddLine { .. } => "HE_ADD_LINE"@,
        HeCommand::HeAddRect { .. } => "HE_ADD_RECT"@,
        HeCommand::HeSetStyle { .. } => "HE_SET_STYLE"@,
        HeCommand::HeSetPage { .. } => "HE_SET_PAGE"@,
        HeCommand::HeSetPrinter { .. } => "HE_SET_PRINTER"@,
        HeCommand::HeSetCopies { .. } => "HE_SET_COPIES"@,
        HeCommand::HeSetOption { .. } => "HE_SET_OPTION"@,
        HeCommand::HePrint => "HE_PRINT"@,
        HeCommand::HePrintSilent => "HE_PRINT_SILENT"@,
        HeCommand::HePreview => "HE_PREVIEW"@,
        HeCommand::HeNewPage => "HE_NEW_PAGE"@,
        HeCommand::HeGetPrinters => "HE_GET_PRINTERS"@,
        HeCommand::HeGetDefaultPrinter => "HE_GET_DEFAULT_PRINTER"@,
        HeCommand::HeHasPrinter { .. } => "HE_HAS_PRINTER"@,
        HeCommand::HeGetInfo { .. } => "HE_GET_INFO"@,
        HeCommand::HeOnResult => "HE_ON_RESULT"@,
        HeCommand::HeSendRaw { .. } => "HE_SEND_RAW"@,
        HeCommand::HeVersion => "HE_VERSION"@,
    }
}

/// The position of a command's kind in the protocol's list of methods.
pub open spec fn command_index(c: HeCommand) -> int {
    match c {
        HeCommand::HeInit { .. } => 0,
        HeCommand::HeAddText { .. } => 1,
        HeCommand::HeAddHtml { .. } => 2,
        HeCommand::HeAddTable { .. } => 3,
        HeCommand::HeAddImage { .. } => 4,
        HeCommand::HeAddBarcode { .. } => 5,
        HeCommand::HeAddPdf { .. } => 6,
        HeCommand::HeAddLine { .. } => 7,
        HeCommand::HeAddRect { .. } => 8,
        HeCommand::HeSetStyle { .. } => 9,
        HeCommand::HeSetPage { .. } => 10,
        HeCommand::HeSetPrinter { .. } => 11,
        HeCommand::HeSetCopies { .. } => 12,
        HeCommand::HeSetOption { .. } => 13,
        HeCommand::HePrint => 14,
        HeCommand::HePrintSilent => 15,
        HeCommand::HePreview => 16,
        HeCommand::HeNewPage => 17,
        HeCommand::HeGetPrinters => 18,
        HeCommand::HeGetDefaultPrinter => 19,
        HeCommand::HeHasPrinter { .. } => 20,
        HeCommand::HeGetInfo { .. } => 21,
        HeCommand::HeOnResult => 22,
        HeCommand::HeSendRaw { .. } => 23,
        HeCommand::HeVersion => 24,
    }
}

/// Three characteristics that tell the method names apart: the length, the
/// fourth character, and the eighth (a space for a shorter name).
pub open spec fn name_key(s: Seq<char>) -> (nat, char, char) {
    (s.len(), s[3], if s.len() > 7 { s[7] } else { ' ' })
}

/// The characteristics of each command's method name.
pub open spec fn command_key(c: HeCommand) -> (nat, char, char) {
    match c {
        HeCommand::HeInit { .. } => (7nat, 'I', ' '),
        HeCommand::HeAddText { .. } => (11nat, 'A', 'T'),
        HeCommand::HeAddHtml { .. } => (11nat, 'A', 'H'),
        HeCommand::HeAddTable { .. } => (12nat, 'A', 'T'),
        HeCommand::HeAddImage { .. } => (12nat, 'A', 'I'),
        HeCommand::HeAddBarcode { .. } => (14nat, 'A', 'B'),
        HeCommand::HeAddPdf { .. } => (10nat, 'A', 'P'),
        HeCommand::HeAddLine { .. } => (11nat, 'A', 'L'),
        HeCommand::HeAddRect { .. } => (11nat, 'A', 'R'),
        HeCommand::HeSetStyle { .. } => (12nat, 'S', 'S'),
        HeCommand::HeSetPage { .. } => (11nat, 'S', 'P'),
        HeCommand::HeSetPrinter { .. } => (14nat, 'S', 'P'),
        HeCommand::HeSetCopies { .. } => (13nat, 'S', 'C'),
        HeCommand::HeSetOption { .. } => (13nat, 'S', 'O'),
        HeCommand::HePrint => (8nat, 'P', 'T'),
        HeCommand::HePrintSilent => (15nat, 'P', 'T'),
        HeCommand::HePreview => (10nat, 'P', 'I'),
        HeCommand::HeNewPage => (11nat, 'N', 'P'),
        HeCommand::HeGetPrinters => (15nat, 'G', 'P'),
        HeCommand::HeGetDefaultPrinter => (22nat, 'G', 'D'),
        HeCommand::HeHasPrinter { .. } => (14nat, 'H', 'P'),
        HeCommand::HeGetInfo { .. } => (11nat, 'G', 'I'),
        HeCommand::HeOnResult => (12nat, 'O', 'E'),
        HeCommand::HeSendRaw { .. } => (11nat, 'S', '_'),
        HeCommand::HeVersion => (10nat, 'V', 'I'),
    }
}

proof fn lemma_command_key(c: HeCommand)
    ensures
        name_key(command_name(c)) == command_key(c),
{
    reveal_strlit("HE_INIT");
    reveal_strlit("HE_ADD_TEXT");
    reveal_strlit("HE_ADD_HTML");
    reveal_strlit("HE_ADD_TABLE");
    reveal_strlit("HE_ADD_IMAGE");
    reveal_strlit("HE_ADD_BARCODE");
    reveal_strlit("HE_ADD_PDF");
    reveal_strlit("HE_ADD_LINE");
    reveal_strlit("HE_ADD_RECT");
    reveal_strlit("HE_SET_STYLE");
    reveal_strlit("HE_SET_PAGE");
    reveal_strlit("HE_SET_PRINTER");
    reveal_strlit("HE_SET_COPIES");
    reveal_strlit("HE_SET_OPTION");
    reveal_strlit("HE_PRINT");
    reveal_strlit("HE_PRINT_SILENT");
    reveal_strlit("HE_PREVIEW");
    reveal_strlit("HE_NEW_PAGE");
    reveal_strlit("HE_GET_PRINTERS");
    reveal_strlit("HE_GET_DEFAULT_PRINTER");
    reveal_strlit("HE_HAS_PRINTER");
    reveal_strlit("HE_GET_INFO");
    reveal_strlit("HE_ON_RESULT");
    reveal_strlit("HE_SEND_RAW");
    reveal_strlit("HE_VERSION");
}

/// Commands of different kinds have different method names.
pub proof fn command_names_are_distinct(a: HeCommand, b: HeCommand)
    requires
        command_index(a) != command_index(b),
    ensures
        command_name(a) != command_name(b),
{
    lemma_command_key(a);
    lemma_command_key(b);
    assert(command_key(a) != command_key(b));
}

impl HeCommand {
    /// The command's method name, as the protocol writes it.
    pub fn name(&self) -> (r: &'static str)
        ensures
            r@ == command_name(*self),
    {
        match self {
            HeCommand::HeInit { .. } => "HE_INIT",
            HeCommand::HeAddText { .. } => "HE_ADD_TEXT",
            HeCommand::HeAddHtml { .. } => "HE_ADD_HTML",
            HeCommand::HeAddTable { .. } => "HE_ADD_TABLE",
            HeCommand::HeAddImage { .. } => "HE_ADD_IMAGE",
            HeCommand::HeAddBarcode { .. } => "HE_ADD_BARCODE",
            HeCommand::HeAddPdf { .. } => "HE_ADD_PDF",
            HeCommand::HeAddLine { .. } => "HE_ADD_LINE",
            HeCommand::HeAddRect { .. } => "HE_ADD_RECT",
            HeCommand::HeSetStyle { .. } => "HE_SET_STYLE",
            HeCommand::HeSetPage { .. } => "HE_SET_PAGE",
            HeCommand::HeSetPrinter { .. } => "HE_SET_PRINTER",
            HeCommand::HeSetCopies { .. } => "HE_SET_COPIES",
            HeCommand::HeSetOption { .. } => "HE_SET_OPTION",
            HeCommand::HePrint => "HE_PRINT",
            HeCommand::HePrintSilent => "HE_PRINT_SILENT",
            HeCommand::HePreview => "HE_PREVIEW",
            HeCommand::HeNewPage => "HE_NEW_PAGE",
            HeCommand::HeGetPrinters => "HE_GET_PRINTERS",
            HeCommand::HeGetDefaultPrinter => "HE_GET_DEFAULT_PRINTER",
            HeCommand::HeHasPrinter { .. } => "HE_HAS_PRINTER",
            HeCommand::HeGetInfo { .. } => "HE_GET_INFO",
            HeCommand::HeOnResult => "HE_ON_RESULT",
            HeCommand::HeSendRaw { .. } => "HE_SEND_RAW",
            HeCommand::HeVersion => "HE_VERSION",
        }
    }
}

} // verus!
