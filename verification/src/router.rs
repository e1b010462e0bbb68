//! Routing of protocol commands to the task manager and the print queue.
//!
//! A command either is answered at once, or needs work that only the host
//! can do (asking the system about printers, sending bytes to a printer);
//! then the router says what to ask, and `resume` turns the answer into the
//! reply.

use vstd::prelude::*;
use vstd::string::StringExecFns;
use crate::error::{ErrorCode, HeError, code_message, is_coded};
use crate::item::{ItemView, PrintItem, style_of, with_style};
use crate::json::{
    JsonValue, JsonView, Number, empty_object, get_bool, get_i64, get_number, get_str, get_u64, json_str,
    number_as_i64,
    push_member, view_list, view_members,
};
use crate::style::{PrintStyle, StyleView, color_text_is_safe, empty_style, known_style_name, style_set_panics, style_with, unknown_style_message};
use crate::task::{
    A4_HEIGHT_BITS, A4_WIDTH_BITS, ManagerView, PageConfig, PageView, PrintTask, TaskManager,
    TaskResult, TaskView, fresh_task, insert_task, is_uuid_v4_text, manager_wf, opt_view, options_insert,
    short_text, status_name, task_index, task_wf,
};
use crate::printer::{PrinterInfo, PrinterView, opt_text_json, printer_json, printers_view};
use crate::codec::{base64_decode, base64_standard_decode, decode_hex, hex_bytes};
use crate::server::HE_VERSION;
use vstd::utf8::encode_utf8;
use crate::queue::{JobView, PrintManager, QueueView};
use crate::types::{BarcodeType, LineStyle, Orient, Rect, line_style_of, orient_of};
use crate::json::{jv_get, jv_as_str};
use crate::text::{chars_equal, chars_of, str_equal};

verus! {

/// A reply as it can be stated: a JSON value, or a coded error by its code
/// and message (`None` for an error of another kind).
pub type ReplyView = Result<JsonView, Option<(ErrorCode, Seq<char>)>>;

/// The view of an error.
pub open spec fn err_view(e: HeError) -> Option<(ErrorCode, Seq<char>)> {
    match e {
        HeError::Coded { code, message } => Some((code, message@)),
        _ => None,
    }
}

/// The view of a reply.
pub open spec fn reply_view(r: Result<JsonValue, HeError>) -> ReplyView {
    match r {
        Ok(v) => Ok(v@),
        Err(e) => Err(err_view(e)),
    }
}

/// A coded error reply.
pub open spec fn fail(code: ErrorCode, msg: Seq<char>) -> ReplyView {
    Err(Some((code, msg)))
}

/// An object reply with these members.
pub open spec fn answer(m: Seq<(Seq<char>, JsonView)>) -> ReplyView {
    Ok(JsonView::Object(m))
}

/// The `{"ok": true}` reply.
pub open spec fn ok_only() -> ReplyView {
    answer(seq![("ok"@, JsonView::Bool(true))])
}

/// The message for a command that names no existing task.
pub open spec fn no_task_msg() -> Seq<char> {
    "请先调用 HE_INIT 或 HE_OPEN_TASK"@
}

/// The task id a command names, if any.
pub open spec fn tid_of(p: JsonView) -> Option<Seq<char>> {
    get_str(p, "taskId"@)
}

/// The task a command acts on: the task its id names, or the current task.
pub open spec fn target_of(m: ManagerView, tid: Option<Seq<char>>) -> Option<TaskView> {
    match tid {
        Some(id) => match task_index(m.tasks, id) {
            Some(i) => Some(m.tasks[i]),
            None => None,
        },
        None => m.current,
    }
}

/// The manager with the command's task replaced.
pub open spec fn with_target(m: ManagerView, tid: Option<Seq<char>>, t: TaskView) -> ManagerView {
    match tid {
        Some(id) => match task_index(m.tasks, id) {
            Some(i) => ManagerView { tasks: m.tasks.update(i, t), ..m },
            None => m,
        },
        None => ManagerView { current: Some(t), ..m },
    }
}

/// Replacing the command's task by a well-formed task with the same ids
/// keeps the manager well formed.
pub proof fn lemma_with_target_wf(m: ManagerView, tid: Option<Seq<char>>, t: TaskView)
    requires
        manager_wf(m),
        target_of(m, tid) matches Some(old_t) && old_t.task_id == t.task_id && old_t.short_id
            == t.short_id,
        task_wf(t),
    ensures
        manager_wf(with_target(m, tid, t)),
{
    let n = with_target(m, tid, t);
    if let Some(id) = tid {
        if let Some(i) = task_index(m.tasks, id) {
            crate::task::lemma_task_index_in_range(m.tasks, id);
            assert forall|a: int| #![trigger n.tasks[a]] 0 <= a < n.tasks.len() implies crate::task::short_handed_out(
                n.tasks[a].short_id,
                n.next_short_id,
            ) by {
                assert(m.tasks[a].short_id == n.tasks[a].short_id);
            }
        }
    }
}

/// Putting the command's task back unchanged leaves the manager as it was.
pub proof fn lemma_with_target_same(m: ManagerView, tid: Option<Seq<char>>)
    requires
        target_of(m, tid) is Some,
    ensures
        with_target(m, tid, target_of(m, tid)->0) == m,
{
    if let Some(id) = tid {
        if let Some(i) = task_index(m.tasks, id) {
            crate::task::lemma_task_index_in_range(m.tasks, id);
            assert(m.tasks.update(i, m.tasks[i]) =~= m.tasks);
        }
    }
}

/// The command's task in a well-formed manager is well formed.
pub proof fn lemma_target_wf(m: ManagerView, tid: Option<Seq<char>>)
    requires
        manager_wf(m),
    ensures
        target_of(m, tid) matches Some(t) ==> task_wf(t),
{
    if let Some(id) = tid {
        crate::task::lemma_task_index_in_range(m.tasks, id);
    }
}

/// A rectangle read from `top`, `left`, `width`, `height`; the first two are
/// required, the others default to 0; values are cut to `i32`.
pub open spec fn rect_param(p: JsonView) -> Result<Rect, (ErrorCode, Seq<char>)> {
    match get_i64(p, "top"@) {
        None => Err((ErrorCode::InvalidParam, "缺少 top"@)),
        Some(top) => match get_i64(p, "left"@) {
            None => Err((ErrorCode::InvalidParam, "缺少 left"@)),
            Some(left) => Ok(
                Rect {
                    top: top as i32,
                    left: left as i32,
                    width: match get_i64(p, "width"@) {
                        Some(w) => w as i32,
                        None => 0,
                    },
                    height: match get_i64(p, "height"@) {
                        Some(h) => h as i32,
                        None => 0,
                    },
                },
            ),
        },
    }
}

/// A text member, or empty text.
pub open spec fn str_or_empty(p: JsonView, key: Seq<char>) -> Seq<char> {
    match get_str(p, key) {
        Some(s) => s,
        None => Seq::empty(),
    }
}

/// The task id member of the parameters.
fn task_id_param(p: &JsonValue) -> (r: Option<String>)
    ensures
        opt_view(r) == tid_of(p@),
{
    match p.get("taskId") {
        Some(v) => match v.as_str() {
            Some(s) => Some(s.to_owned()),
            None => None,
        },
        None => None,
    }
}

/// A text member of the parameters.
fn str_param(p: &JsonValue, key: &str) -> (r: Option<String>)
    ensures
        opt_view(r) == get_str(p@, key@),
{
    match p.get(key) {
        Some(v) => match v.as_str() {
            Some(s) => Some(s.to_owned()),
            None => None,
        },
        None => None,
    }
}

/// A text member of the parameters, or empty text.
fn str_param_or_empty(p: &JsonValue, key: &str) -> (r: String)
    ensures
        r@ == str_or_empty(p@, key@),
{
    match str_param(p, key) {
        Some(s) => s,
        None => {
            proof {
                reveal_strlit("");
            }
            String::new()
        },
    }
}

/// An integer member of the parameters.
fn i64_param(p: &JsonValue, key: &str) -> (r: Option<i64>)
    ensures
        match r {
            Some(i) => get_i64(p@, key@) == Some(i as int),
            None => get_i64(p@, key@) is None,
        },
{
    match p.get(key) {
        Some(v) => v.as_i64(),
        None => None,
    }
}

/// A number member of the parameters.
fn number_param(p: &JsonValue, key: &str) -> (r: Option<Number>)
    ensures
        r == get_number(p@, key@),
{
    match p.get(key) {
        Some(v) => v.as_number(),
        None => None,
    }
}

/// Reads the rectangle of a command.
fn parse_rect(p: &JsonValue) -> (r: Result<Rect, HeError>)
    ensures
        match rect_param(p@) {
            Ok(rect) => r == Ok::<Rect, HeError>(rect),
            Err((c, msg)) => r matches Err(e) && is_coded(e, c, msg),
        },
{
    let top = match i64_param(p, "top") {
        Some(t) => t,
        None => {
            return Err(HeError::coded(ErrorCode::InvalidParam, "缺少 top".to_owned()));
        },
    };
    let left = match i64_param(p, "left") {
        Some(t) => t,
        None => {
            return Err(HeError::coded(ErrorCode::InvalidParam, "缺少 left".to_owned()));
        },
    };
    let width = match i64_param(p, "width") {
        Some(w) => w as i32,
        None => 0,
    };
    let height = match i64_param(p, "height") {
        Some(h) => h as i32,
        None => 0,
    };
    Ok(Rect::new(top as i32, left as i32, width, height))
}

/// The command's task, to change it in place.
fn target_task<'a>(mgr: &'a mut TaskManager, tid: &Option<String>) -> (r: Result<&'a mut PrintTask, HeError>)
    ensures
        match target_of(old(mgr)@, opt_view(*tid)) {
            Some(t) => r matches Ok(x) && x@ == t && final(mgr)@ == with_target(
                old(mgr)@,
                opt_view(*tid),
                final(x)@,
            ),
            None => r matches Err(e) && is_coded(e, ErrorCode::TaskNotFound, no_task_msg())
                && final(mgr)@ == old(mgr)@,
        },
{
    let found = match tid {
        Some(id) => mgr.get_task_mut(id.as_str()),
        None => mgr.current_mut(),
    };
    match found {
        Some(t) => Ok(t),
        None => Err(HeError::coded(ErrorCode::TaskNotFound, "请先调用 HE_INIT 或 HE_OPEN_TASK".to_owned())),
    }
}


/// The task with an item added.
pub open spec fn with_item(t: TaskView, it: ItemView) -> TaskView {
    TaskView { items: t.items.push(it), ..t }
}

/// Adding `it` to the command's task: the new state and the new number of
/// items, or the error when there is no such task.
pub open spec fn add_to_target(m: ManagerView, tid: Option<Seq<char>>, it: ItemView) -> (
    ManagerView,
    Result<nat, (ErrorCode, Seq<char>)>,
) {
    match target_of(m, tid) {
        Some(t) => (with_target(m, tid, with_item(t, it)), Ok(t.items.len() + 1)),
        None => (m, Err((ErrorCode::TaskNotFound, no_task_msg()))),
    }
}

/// The reply to an added item: `{"ok": true}`, with the new item's index
/// when asked for.
pub open spec fn added_reply(r: Result<nat, (ErrorCode, Seq<char>)>, with_index: bool) -> ReplyView {
    match r {
        Ok(n) => if with_index {
            answer(seq![("ok"@, JsonView::Bool(true)), ("index"@, JsonView::Number(Number::PosInt((n - 1) as u64)))])
        } else {
            ok_only()
        },
        Err((c, msg)) => fail(c, msg),
    }
}

/// Adding an item read from the parameters, after the parameters that can
/// fail have been read.
pub open spec fn route_add(p: JsonView, m: ManagerView, item: Result<ItemView, (ErrorCode, Seq<char>)>, with_index: bool) -> (ManagerView, ReplyView) {
    match item {
        Err((c, msg)) => (m, fail(c, msg)),
        Ok(it) => {
            let (m2, r) = add_to_target(m, tid_of(p), it);
            (m2, added_reply(r, with_index))
        },
    }
}

/// An item built on the command's rectangle.
pub open spec fn boxed(p: JsonView, f: spec_fn(Rect) -> ItemView) -> Result<ItemView, (ErrorCode, Seq<char>)> {
    match rect_param(p) {
        Ok(rect) => Ok(f(rect)),
        Err(e) => Err(e),
    }
}

/// A member, or another when the first is missing.
pub open spec fn get_either(p: JsonView, a: Seq<char>, b: Seq<char>) -> Option<JsonView> {
    match jv_get(p, a) {
        Some(x) => Some(x),
        None => jv_get(p, b),
    }
}

/// The text of a member, or of another when the first is missing, or the
/// default.
pub open spec fn str_either(p: JsonView, a: Seq<char>, b: Seq<char>, d: Seq<char>) -> Seq<char> {
    match get_either(p, a, b) {
        Some(x) => match jv_as_str(x) {
            Some(s) => s,
            None => d,
        },
        None => d,
    }
}

/// The barcode type a name selects.
pub open spec fn barcode_type_of(s: Seq<char>) -> Option<BarcodeType> {
    if s == "QRCode"@ || s == "qrcode"@ {
        Some(BarcodeType::QRCode)
    } else if s == "Code128"@ {
        Some(BarcodeType::Code128)
    } else if s == "Code39"@ {
        Some(BarcodeType::Code39)
    } else if s == "EAN13"@ {
        Some(BarcodeType::EAN13)
    } else if s == "EAN8"@ {
        Some(BarcodeType::EAN8)
    } else if s == "UPC-A"@ {
        Some(BarcodeType::UpcA)
    } else if s == "UPC-E"@ {
        Some(BarcodeType::UpcE)
    } else if s == "PDF417"@ {
        Some(BarcodeType::PDF417)
    } else if s == "DataMatrix"@ {
        Some(BarcodeType::DataMatrix)
    } else {
        None
    }
}

/// Reads a barcode type name.
pub fn parse_barcode_type(s: &str) -> (r: Result<BarcodeType, HeError>)
    ensures
        match barcode_type_of(s@) {
            Some(b) => r == Ok::<BarcodeType, HeError>(b),
            None => r matches Err(e) && is_coded(
                e,
                ErrorCode::InvalidBarcodeType,
                "不支持的条码类型: "@ + s@,
            ),
        },
{
    let v = chars_of(s);
    if chars_equal(&v, "QRCode") || chars_equal(&v, "qrcode") {
        Ok(BarcodeType::QRCode)
    } else if chars_equal(&v, "Code128") {
        Ok(BarcodeType::Code128)
    } else if chars_equal(&v, "Code39") {
        Ok(BarcodeType::Code39)
    } else if chars_equal(&v, "EAN13") {
        Ok(BarcodeType::EAN13)
    } else if chars_equal(&v, "EAN8") {
        Ok(BarcodeType::EAN8)
    } else if chars_equal(&v, "UPC-A") {
        Ok(BarcodeType::UpcA)
    } else if chars_equal(&v, "UPC-E") {
        Ok(BarcodeType::UpcE)
    } else if chars_equal(&v, "PDF417") {
        Ok(BarcodeType::PDF417)
    } else if chars_equal(&v, "DataMatrix") {
        Ok(BarcodeType::DataMatrix)
    } else {
        Err(HeError::coded(ErrorCode::InvalidBarcodeType, "不支持的条码类型: ".to_owned().concat(s)))
    }
}

/// 1.0 as a binary64 bit pattern: the default line width.
pub const ONE_BITS: u64 = 0x3ff0_0000_0000_0000;

/// The line style member, `solid` by default.
pub open spec fn line_style_param(p: JsonView) -> LineStyle {
    match get_str(p, "lineStyle"@) {
        Some(s) => line_style_of(s),
        None => line_style_of("solid"@),
    }
}

/// The line width member, 1.0 by default.
pub open spec fn line_width_param(p: JsonView) -> Number {
    match get_number(p, "lineWidth"@) {
        Some(n) => n,
        None => Number::Float(ONE_BITS),
    }
}

/// An integer member cut to `i32`, 0 by default.
pub open spec fn i32_or_zero(p: JsonView, key: Seq<char>) -> i32 {
    match get_i64(p, key) {
        Some(v) => v as i32,
        None => 0,
    }
}

/// The item each adding command builds.
pub open spec fn text_item(p: JsonView) -> Result<ItemView, (ErrorCode, Seq<char>)> {
    boxed(p, |r: Rect| ItemView::Text { bounds: r, style: empty_style(), text: str_or_empty(p, "text"@) })
}

pub open spec fn html_item(p: JsonView) -> Result<ItemView, (ErrorCode, Seq<char>)> {
    boxed(p, |r: Rect| ItemView::Html { bounds: r, style: empty_style(), html: str_or_empty(p, "html"@) })
}

pub open spec fn table_item(p: JsonView) -> Result<ItemView, (ErrorCode, Seq<char>)> {
    boxed(
        p,
        |r: Rect|
            ItemView::Table {
                bounds: r,
                style: empty_style(),
                html: str_either(p, "tableHtml"@, "html"@, Seq::empty()),
            },
    )
}

pub open spec fn image_item(p: JsonView) -> Result<ItemView, (ErrorCode, Seq<char>)> {
    boxed(p, |r: Rect| ItemView::Image { bounds: r, style: empty_style(), src: str_or_empty(p, "src"@) })
}

pub open spec fn barcode_item(p: JsonView) -> Result<ItemView, (ErrorCode, Seq<char>)> {
    match rect_param(p) {
        Err(e) => Err(e),
        Ok(r) => {
            let name = str_either(p, "btype"@, "type"@, "QRCode"@);
            match barcode_type_of(name) {
                None => Err((ErrorCode::InvalidBarcodeType, "不支持的条码类型: "@ + name)),
                Some(b) => Ok(
                    ItemView::Barcode {
                        bounds: r,
                        style: empty_style(),
                        btype: b,
                        value: str_or_empty(p, "value"@),
                    },
                ),
            }
        },
    }
}

pub open spec fn pdf_item(p: JsonView) -> Result<ItemView, (ErrorCode, Seq<char>)> {
    boxed(p, |r: Rect| ItemView::Pdf { bounds: r, style: empty_style(), content: str_or_empty(p, "content"@) })
}

pub open spec fn line_item(p: JsonView) -> Result<ItemView, (ErrorCode, Seq<char>)> {
    Ok(
        ItemView::Line {
            x1: i32_or_zero(p, "left1"@),
            y1: i32_or_zero(p, "top1"@),
            x2: i32_or_zero(p, "left2"@),
            y2: i32_or_zero(p, "top2"@),
            style: empty_style(),
            line_style: line_style_param(p),
            line_width: line_width_param(p),
        },
    )
}

pub open spec fn rect_item(p: JsonView) -> Result<ItemView, (ErrorCode, Seq<char>)> {
    boxed(
        p,
        |r: Rect|
            ItemView::Rect {
                bounds: r,
                style: empty_style(),
                line_style: line_style_param(p),
                line_width: line_width_param(p),
            },
    )
}

/// Adds an item to the command's task.
fn push_to_target(mgr: &mut TaskManager, tid: &Option<String>, item: PrintItem) -> (r: Result<usize, HeError>)
    requires
        manager_wf(old(mgr)@),
    ensures
        manager_wf(final(mgr)@),
        final(mgr)@ == add_to_target(old(mgr)@, opt_view(*tid), item@).0,
        match add_to_target(old(mgr)@, opt_view(*tid), item@).1 {
            Ok(n) => r matches Ok(k) && k == n,
            Err((c, msg)) => r matches Err(e) && is_coded(e, c, msg),
        },
{
    let ghost it = item@;
    match target_task(mgr, tid) {
        Ok(task) => {
            let ghost before = task@;
            task.push_item(item);
            let n = task.items.len();
            assert(task@.items.len() == n);
            assert(n == before.items.len() + 1);
            proof {
                lemma_target_wf(old(mgr)@, opt_view(*tid));
                lemma_with_target_wf(old(mgr)@, opt_view(*tid), task@);
            }
            Ok(n)
        },
        Err(e) => Err(e),
    }
}

/// The reply to an added item.
fn added(r: Result<usize, HeError>, with_index: bool) -> (out: Result<JsonValue, HeError>)
    requires
        r matches Ok(n) ==> n >= 1,
    ensures
        match r {
            Ok(n) => reply_view(out) == added_reply(Ok::<nat, (ErrorCode, Seq<char>)>(n as nat), with_index),
            Err(e) => out == Err::<JsonValue, HeError>(e),
        },
{
    match r {
        Ok(n) => {
            let mut m = empty_object();
            push_member(&mut m, "ok", JsonValue::Bool(true));
            if with_index {
                push_member(&mut m, "index", JsonValue::Number(Number::PosInt((n - 1) as u64)));
                assert(view_members(m@) =~= seq![("ok"@, JsonView::Bool(true)), ("index"@, JsonView::Number(Number::PosInt((n - 1) as u64)))]);
            } else {
                assert(view_members(m@) =~= seq![("ok"@, JsonView::Bool(true))]);
            }
            Ok(JsonValue::Object(m))
        },
        Err(e) => Err(e),
    }
}


/// The text of a member, or of another when the first is missing, or the
/// default.
fn str_either_param(p: &JsonValue, a: &str, b: &str, d: &str) -> (r: String)
    ensures
        r@ == str_either(p@, a@, b@, d@),
{
    let v = match p.get(a) {
        Some(x) => Some(x),
        None => p.get(b),
    };
    match v {
        Some(x) => match x.as_str() {
            Some(s) => s.to_owned(),
            None => d.to_owned(),
        },
        None => d.to_owned(),
    }
}

/// The line style member.
fn line_style_value(p: &JsonValue) -> (r: LineStyle)
    ensures
        r == line_style_param(p@),
{
    match str_param(p, "lineStyle") {
        Some(s) => LineStyle::parse(s.as_str()),
        None => LineStyle::parse("solid"),
    }
}

/// The line width member.
fn line_width_value(p: &JsonValue) -> (r: Number)
    ensures
        r == line_width_param(p@),
{
    match number_param(p, "lineWidth") {
        Some(n) => n,
        None => Number::Float(ONE_BITS),
    }
}

/// An integer member cut to `i32`, 0 by default.
fn i32_param_or_zero(p: &JsonValue, key: &str) -> (r: i32)
    ensures
        r == i32_or_zero(p@, key@),
{
    match i64_param(p, key) {
        Some(v) => v as i32,
        None => 0,
    }
}

fn he_add_text(p: &JsonValue, mgr: &mut TaskManager) -> (r: Result<JsonValue, HeError>)
    requires
        manager_wf(old(mgr)@),
    ensures
        manager_wf(final(mgr)@),
        (final(mgr)@, reply_view(r)) == route_add(p@, old(mgr)@, text_item(p@), true),
{
    let tid = task_id_param(p);
    let bounds = match parse_rect(p) {
        Ok(b) => b,
        Err(e) => {
            return Err(e);
        },
    };
    let text = str_param_or_empty(p, "text");
    let item = PrintItem::Text { bounds, style: PrintStyle::default(), text };
    let pushed = push_to_target(mgr, &tid, item);
    added(pushed, true)
}

fn he_add_html(p: &JsonValue, mgr: &mut TaskManager) -> (r: Result<JsonValue, HeError>)
    requires
        manager_wf(old(mgr)@),
    ensures
        manager_wf(final(mgr)@),
        (final(mgr)@, reply_view(r)) == route_add(p@, old(mgr)@, html_item(p@), false),
{
    let tid = task_id_param(p);
    let bounds = match parse_rect(p) {
        Ok(b) => b,
        Err(e) => {
            return Err(e);
        },
    };
    let html = str_param_or_empty(p, "html");
    let item = PrintItem::Html { bounds, style: PrintStyle::default(), html };
    let pushed = push_to_target(mgr, &tid, item);
    added(pushed, false)
}

fn he_add_table(p: &JsonValue, mgr: &mut TaskManager) -> (r: Result<JsonValue, HeError>)
    requires
        manager_wf(old(mgr)@),
    ensures
        manager_wf(final(mgr)@),
        (final(mgr)@, reply_view(r)) == route_add(p@, old(mgr)@, table_item(p@), false),
{
    let tid = task_id_param(p);
    let bounds = match parse_rect(p) {
        Ok(b) => b,
        Err(e) => {
            return Err(e);
        },
    };
    let html = str_either_param(p, "tableHtml", "html", "");
    proof {
        reveal_strlit("");
        assert(""@ =~= Seq::<char>::empty());
    }
    let item = PrintItem::Table { bounds, style: PrintStyle::default(), html };
    let pushed = push_to_target(mgr, &tid, item);
    added(pushed, false)
}

fn he_add_image(p: &JsonValue, mgr: &mut TaskManager) -> (r: Result<JsonValue, HeError>)
    requires
        manager_wf(old(mgr)@),
    ensures
        manager_wf(final(mgr)@),
        (final(mgr)@, reply_view(r)) == route_add(p@, old(mgr)@, image_item(p@), false),
{
    let tid = task_id_param(p);
    let bounds = match parse_rect(p) {
        Ok(b) => b,
        Err(e) => {
            return Err(e);
        },
    };
    let src = str_param_or_empty(p, "src");
    let item = PrintItem::Image { bounds, style: PrintStyle::default(), src };
    let pushed = push_to_target(mgr, &tid, item);
    added(pushed, false)
}

fn he_add_barcode(p: &JsonValue, mgr: &mut TaskManager) -> (r: Result<JsonValue, HeError>)
    requires
        manager_wf(old(mgr)@),
    ensures
        manager_wf(final(mgr)@),
        (final(mgr)@, reply_view(r)) == route_add(p@, old(mgr)@, barcode_item(p@), false),
{
    let tid = task_id_param(p);
    let bounds = match parse_rect(p) {
        Ok(b) => b,
        Err(e) => {
            return Err(e);
        },
    };
    let name = str_either_param(p, "btype", "type", "QRCode");
    let btype = match parse_barcode_type(name.as_str()) {
        Ok(b) => b,
        Err(e) => {
            return Err(e);
        },
    };
    let value = str_param_or_empty(p, "value");
    let item = PrintItem::Barcode { bounds, style: PrintStyle::default(), btype, value };
    let pushed = push_to_target(mgr, &tid, item);
    added(pushed, false)
}

fn he_add_pdf(p: &JsonValue, mgr: &mut TaskManager) -> (r: Result<JsonValue, HeError>)
    requires
        manager_wf(old(mgr)@),
    ensures
        manager_wf(final(mgr)@),
        (final(mgr)@, reply_view(r)) == route_add(p@, old(mgr)@, pdf_item(p@), false),
{
    let tid = task_id_param(p);
    let bounds = match parse_rect(p) {
        Ok(b) => b,
        Err(e) => {
            return Err(e);
        },
    };
    let content = str_param_or_empty(p, "content");
    let item = PrintItem::Pdf { bounds, style: PrintStyle::default(), content };
    let pushed = push_to_target(mgr, &tid, item);
    added(pushed, false)
}

fn he_add_line(p: &JsonValue, mgr: &mut TaskManager) -> (r: Result<JsonValue, HeError>)
    requires
        manager_wf(old(mgr)@),
    ensures
        manager_wf(final(mgr)@),
        (final(mgr)@, reply_view(r)) == route_add(p@, old(mgr)@, line_item(p@), false),
{
    let tid = task_id_param(p);
    let top1 = i32_param_or_zero(p, "top1");
    let left1 = i32_param_or_zero(p, "left1");
    let top2 = i32_param_or_zero(p, "top2");
    let left2 = i32_param_or_zero(p, "left2");
    let line_style = line_style_value(p);
    let line_width = line_width_value(p);
    let item = PrintItem::Line {
        x1: left1,
        y1: top1,
        x2: left2,
        y2: top2,
        style: PrintStyle::default(),
        line_style,
        line_width,
    };
    let pushed = push_to_target(mgr, &tid, item);
    added(pushed, false)
}

fn he_add_rect(p: &JsonValue, mgr: &mut TaskManager) -> (r: Result<JsonValue, HeError>)
    requires
        manager_wf(old(mgr)@),
    ensures
        manager_wf(final(mgr)@),
        (final(mgr)@, reply_view(r)) == route_add(p@, old(mgr)@, rect_item(p@), false),
{
    let tid = task_id_param(p);
    let bounds = match parse_rect(p) {
        Ok(b) => b,
        Err(e) => {
            return Err(e);
        },
    };
    let line_style = line_style_value(p);
    let line_width = line_width_value(p);
    let item = PrintItem::Rect { bounds, style: PrintStyle::default(), line_style, line_width };
    let pushed = push_to_target(mgr, &tid, item);
    added(pushed, false)
}


/// Changes the command's task by `f`, answering `reply`; without such a task
/// the command fails and nothing changes.
pub open spec fn change_target(m: ManagerView, tid: Option<Seq<char>>, f: spec_fn(TaskView) -> TaskView, reply: ReplyView) -> (ManagerView, ReplyView) {
    match target_of(m, tid) {
        Some(t) => (with_target(m, tid, f(t)), reply),
        None => (m, fail(ErrorCode::TaskNotFound, no_task_msg())),
    }
}

/// A member or `null`.
pub open spec fn value_or_null(p: JsonView, key: Seq<char>) -> JsonView {
    match jv_get(p, key) {
        Some(v) => v,
        None => JsonView::Null,
    }
}

/// The paper settings a command gives: `orient` (1 by default, cut to
/// `i32`), `width` and `height` in mm (210 and 297 by default), `name`.
pub open spec fn page_param(p: JsonView) -> PageView {
    PageView {
        orient: orient_of(
            match get_i64(p, "orient"@) {
                Some(o) => o as i32,
                None => 1,
            },
        ),
        width_mm: match get_number(p, "width"@) {
            Some(n) => n,
            None => Number::Float(A4_WIDTH_BITS),
        },
        height_mm: match get_number(p, "height"@) {
            Some(n) => n,
            None => Number::Float(A4_HEIGHT_BITS),
        },
        name: get_str(p, "name"@),
    }
}

/// `HE_SET_PAGE`.
pub open spec fn set_page_spec(p: JsonView, m: ManagerView) -> (ManagerView, ReplyView) {
    change_target(m, tid_of(p), |t: TaskView| TaskView { page: page_param(p), ..t }, ok_only())
}

/// The copy count a command gives: `count` (1 by default), at least 1, cut
/// to `u32`.
pub open spec fn copies_param(p: JsonView) -> u32 {
    let c = match get_u64(p, "count"@) {
        Some(c) => c,
        None => 1,
    };
    (if c < 1 { 1 } else { c }) as u32
}

/// `HE_SET_COPIES`.
pub open spec fn set_copies_spec(p: JsonView, m: ManagerView) -> (ManagerView, ReplyView) {
    let n = copies_param(p);
    change_target(
        m,
        tid_of(p),
        |t: TaskView| TaskView { copies: n, ..t },
        answer(seq![("ok"@, JsonView::Bool(true)), ("copies"@, JsonView::Number(Number::PosInt(n as u64)))]),
    )
}

/// `HE_SET_OPTION`: `key` is required.
pub open spec fn set_option_spec(p: JsonView, m: ManagerView) -> (ManagerView, ReplyView) {
    match get_str(p, "key"@) {
        None => (m, fail(ErrorCode::InvalidParam, "缺少 key"@)),
        Some(k) => change_target(
            m,
            tid_of(p),
            |t: TaskView| TaskView { options: options_insert(t.options, k, value_or_null(p, "value"@)), ..t },
            ok_only(),
        ),
    }
}

/// `HE_NEW_PAGE`: a page break on the current task.
pub open spec fn new_page_spec(m: ManagerView) -> (ManagerView, ReplyView) {
    change_target(m, None, |t: TaskView| with_item(t, ItemView::PageBreak), ok_only())
}

/// The task with the style of its last item set.
pub open spec fn with_last_style(t: TaskView, st: StyleView) -> TaskView {
    TaskView { items: t.items.update(t.items.len() - 1, with_style(t.items.last(), st)), ..t }
}

/// `HE_SET_STYLE`: sets a style of the last item of the command's task.
pub open spec fn set_style_spec(p: JsonView, m: ManagerView) -> (ManagerView, ReplyView) {
    match get_str(p, "name"@) {
        None => (m, fail(ErrorCode::InvalidParam, "缺少 name"@)),
        Some(name) => match target_of(m, tid_of(p)) {
            None => (m, fail(ErrorCode::TaskNotFound, no_task_msg())),
            Some(t) => if t.items.len() == 0 {
                (m, fail(ErrorCode::InvalidParam, "无可设置样式的项"@))
            } else {
                match style_of(t.items.last()) {
                    None => (m, fail(ErrorCode::InvalidParam, "该项不支持设置样式"@)),
                    Some(st) => if known_style_name(name) {
                        (
                            with_target(m, tid_of(p), with_last_style(t, style_with(st, name, value_or_null(p, "value"@)))),
                            ok_only(),
                        )
                    } else {
                        (m, fail(ErrorCode::InvalidParam, unknown_style_message(name)))
                    },
                }
            },
        },
    }
}

/// Whether `HE_SET_STYLE` would read a colour text that cuts a character in
/// two (the one input on which it cannot answer).
pub open spec fn set_style_panics(p: JsonView, m: ManagerView) -> bool {
    match get_str(p, "name"@) {
        None => false,
        Some(name) => match target_of(m, tid_of(p)) {
            None => false,
            Some(t) => t.items.len() > 0 && style_of(t.items.last()) is Some && style_set_panics(
                name,
                value_or_null(p, "value"@),
            ),
        },
    }
}

/// Setting the printer of the command's task by name; an empty name names
/// no printer.
pub open spec fn set_printer_named(m: ManagerView, tid: Option<Seq<char>>, name: Seq<char>) -> (ManagerView, ReplyView) {
    if name.len() == 0 {
        (m, fail(ErrorCode::PrinterNotFound, code_message(ErrorCode::PrinterNotFound)))
    } else {
        change_target(
            m,
            tid,
            |t: TaskView| TaskView { printer_name: Some(name), ..t },
            answer(seq![("ok"@, JsonView::Bool(true)), ("printerName"@, JsonView::Str(name))]),
        )
    }
}

/// A member, or `null`.
fn value_param(p: &JsonValue, key: &str) -> (r: JsonValue)
    ensures
        r@ == value_or_null(p@, key@),
{
    match p.get(key) {
        Some(v) => v.duplicate(),
        None => JsonValue::Null,
    }
}

/// A non-negative integer member.
fn u64_param(p: &JsonValue, key: &str) -> (r: Option<u64>)
    ensures
        match r {
            Some(i) => get_u64(p@, key@) == Some(i as int),
            None => get_u64(p@, key@) is None,
        },
{
    match p.get(key) {
        Some(v) => v.as_u64(),
        None => None,
    }
}

/// The `{"ok": true}` value.
fn ok_value() -> (r: JsonValue)
    ensures
        reply_view(Ok::<JsonValue, HeError>(r)) == ok_only(),
{
    let mut m = empty_object();
    push_member(&mut m, "ok", JsonValue::Bool(true));
    assert(view_members(m@) =~= seq![("ok"@, JsonView::Bool(true))]);
    JsonValue::Object(m)
}

/// The paper settings of a command.
fn page_value(p: &JsonValue) -> (r: PageConfig)
    ensures
        r@ == page_param(p@),
{
    let orient = match i64_param(p, "orient") {
        Some(o) => o as i32,
        None => 1,
    };
    let width = match number_param(p, "width") {
        Some(n) => n,
        None => Number::Float(A4_WIDTH_BITS),
    };
    let height = match number_param(p, "height") {
        Some(n) => n,
        None => Number::Float(A4_HEIGHT_BITS),
    };
    PageConfig { orient: Orient::from(orient), width_mm: width, height_mm: height, name: str_param(p, "name") }
}

fn he_set_page(p: &JsonValue, mgr: &mut TaskManager) -> (r: Result<JsonValue, HeError>)
    requires
        manager_wf(old(mgr)@),
    ensures
        manager_wf(final(mgr)@),
        (final(mgr)@, reply_view(r)) == set_page_spec(p@, old(mgr)@),
{
    let tid = task_id_param(p);
    let page = page_value(p);
    match target_task(mgr, &tid) {
        Ok(task) => {
            proof {
                lemma_target_wf(old(mgr)@, opt_view(tid));
            }
            task.page = page;
            proof {
                lemma_with_target_wf(old(mgr)@, opt_view(tid), task@);
            }
            Ok(ok_value())
        },
        Err(e) => Err(e),
    }
}

fn he_set_copies(p: &JsonValue, mgr: &mut TaskManager) -> (r: Result<JsonValue, HeError>)
    requires
        manager_wf(old(mgr)@),
    ensures
        manager_wf(final(mgr)@),
        (final(mgr)@, reply_view(r)) == set_copies_spec(p@, old(mgr)@),
{
    let tid = task_id_param(p);
    let c: u64 = match u64_param(p, "count") {
        Some(c) => c,
        None => 1,
    };
    let c: u64 = if c < 1 { 1 } else { c };
    let n: u32 = c as u32;
    match target_task(mgr, &tid) {
        Ok(task) => {
            proof {
                lemma_target_wf(old(mgr)@, opt_view(tid));
            }
            task.copies = n;
            proof {
                lemma_with_target_wf(old(mgr)@, opt_view(tid), task@);
            }
            let mut m = empty_object();
            push_member(&mut m, "ok", JsonValue::Bool(true));
            push_member(&mut m, "copies", JsonValue::Number(Number::PosInt(n as u64)));
            assert(view_members(m@) =~= seq![("ok"@, JsonView::Bool(true)), ("copies"@, JsonView::Number(Number::PosInt(n as u64)))]);
            Ok(JsonValue::Object(m))
        },
        Err(e) => Err(e),
    }
}

fn he_set_option(p: &JsonValue, mgr: &mut TaskManager) -> (r: Result<JsonValue, HeError>)
    requires
        manager_wf(old(mgr)@),
    ensures
        manager_wf(final(mgr)@),
        (final(mgr)@, reply_view(r)) == set_option_spec(p@, old(mgr)@),
{
    let tid = task_id_param(p);
    let key = match str_param(p, "key") {
        Some(k) => k,
        None => {
            return Err(HeError::coded(ErrorCode::InvalidParam, "缺少 key".to_owned()));
        },
    };
    let value = value_param(p, "value");
    match target_task(mgr, &tid) {
        Ok(task) => {
            proof {
                lemma_target_wf(old(mgr)@, opt_view(tid));
            }
            task.set_option(key, value);
            proof {
                lemma_with_target_wf(old(mgr)@, opt_view(tid), task@);
            }
            Ok(ok_value())
        },
        Err(e) => Err(e),
    }
}

fn he_new_page(mgr: &mut TaskManager) -> (r: Result<JsonValue, HeError>)
    requires
        manager_wf(old(mgr)@),
    ensures
        manager_wf(final(mgr)@),
        (final(mgr)@, reply_view(r)) == new_page_spec(old(mgr)@),
{
    let tid: Option<String> = None;
    match target_task(mgr, &tid) {
        Ok(task) => {
            proof {
                lemma_target_wf(old(mgr)@, opt_view(tid));
            }
            task.push_item(PrintItem::PageBreak);
            proof {
                lemma_with_target_wf(old(mgr)@, opt_view(tid), task@);
            }
            Ok(ok_value())
        },
        Err(e) => Err(e),
    }
}

fn he_set_style(p: &JsonValue, mgr: &mut TaskManager) -> (r: Result<JsonValue, HeError>)
    requires
        manager_wf(old(mgr)@),
        !set_style_panics(p@, old(mgr)@),
    ensures
        manager_wf(final(mgr)@),
        (final(mgr)@, reply_view(r)) == set_style_spec(p@, old(mgr)@),
{
    let tid = task_id_param(p);
    let name = match str_param(p, "name") {
        Some(k) => k,
        None => {
            return Err(HeError::coded(ErrorCode::InvalidParam, "缺少 name".to_owned()));
        },
    };
    let value = value_param(p, "value");
    let task = match target_task(mgr, &tid) {
        Ok(task) => task,
        Err(e) => {
            return Err(e);
        },
    };
    proof {
        lemma_target_wf(old(mgr)@, opt_view(tid));
    }
    let ghost t0 = task@;
    let last = match task.last_item_mut() {
        Some(it) => it,
        None => {
            proof {
                lemma_with_target_same(old(mgr)@, opt_view(tid));
            }
            return Err(HeError::coded(ErrorCode::InvalidParam, "无可设置样式的项".to_owned()));
        },
    };
    let ghost l0 = last@;
    let style = match last.style_mut() {
        Some(st) => st,
        None => {
            proof {
                assert(t0.items.update(t0.items.len() - 1, l0) =~= t0.items);
                lemma_with_target_same(old(mgr)@, opt_view(tid));
            }
            return Err(HeError::coded(ErrorCode::InvalidParam, "该项不支持设置样式".to_owned()));
        },
    };
    match style.set(name.as_str(), &value) {
        Ok(()) => {},
        Err(e) => {
            proof {
                crate::item::lemma_with_style_same(l0);
                assert(t0.items.update(t0.items.len() - 1, l0) =~= t0.items);
                lemma_with_target_same(old(mgr)@, opt_view(tid));
            }
            return Err(HeError::coded(ErrorCode::InvalidParam, e));
        },
    }
    proof {
        lemma_with_target_wf(old(mgr)@, opt_view(tid), with_last_style(t0, style_with(style_of(t0.items.last())->0, name@, value@)));
    }
    Ok(ok_value())
}

/// A text member, or a default.
pub open spec fn str_or(p: JsonView, key: Seq<char>, d: Seq<char>) -> Seq<char> {
    match get_str(p, key) {
        Some(s) => s,
        None => d,
    }
}

/// The task name a command gives, `untitled` by default.
pub open spec fn task_name_param(p: JsonView) -> Seq<char> {
    str_or(p, "taskName"@, "untitled"@)
}

/// The reply that names a task just started.
pub open spec fn started_reply(short: Seq<char>, full: Seq<char>, name: Seq<char>) -> ReplyView {
    answer(
        seq![
            ("ok"@, JsonView::Bool(true)),
            ("taskId"@, JsonView::Str(short)),
            ("fullId"@, JsonView::Str(full)),
            ("taskName"@, JsonView::Str(name)),
        ],
    )
}

/// `HE_INIT`, when the new task's id is `fresh`: a new current task.
pub open spec fn init_spec(p: JsonView, m: ManagerView, fresh: Seq<char>) -> (ManagerView, ReplyView) {
    let name = task_name_param(p);
    (ManagerView { current: Some(fresh_task(fresh, name)), ..m }, started_reply(fresh, fresh, name))
}

/// The task `HE_OPEN_TASK` opens as the `k`-th task by id.
pub open spec fn opened_task(name: Seq<char>, k: nat, fresh: Seq<char>) -> TaskView {
    TaskView { short_id: Some(short_text(k)), ..fresh_task(fresh, name) }
}

/// `HE_OPEN_TASK`, when the new task's id is `fresh`.
pub open spec fn open_task_spec(p: JsonView, m: ManagerView, fresh: Seq<char>) -> (ManagerView, ReplyView) {
    let name = task_name_param(p);
    let k = m.next_short_id as nat;
    (
        ManagerView {
            tasks: insert_task(m.tasks, opened_task(name, k, fresh)),
            next_short_id: (m.next_short_id + 1) as u32,
            current: m.current,
        },
        started_reply(short_text(k), fresh, name),
    )
}

/// `HE_CLOSE_TASK`: `taskId` is required; the reply says whether a task was
/// closed.
pub open spec fn close_task_spec(p: JsonView, m: ManagerView) -> (ManagerView, ReplyView) {
    match tid_of(p) {
        None => (m, fail(ErrorCode::InvalidParam, "缺少 taskId"@)),
        Some(id) => match task_index(m.tasks, id) {
            Some(i) => (
                ManagerView { tasks: m.tasks.remove(i), ..m },
                answer(seq![("ok"@, JsonView::Bool(true))]),
            ),
            None => (m, answer(seq![("ok"@, JsonView::Bool(false))])),
        },
    }
}

/// A task as `HE_LIST_TASKS` lists it.
pub open spec fn task_entry(t: TaskView) -> JsonView {
    JsonView::Object(
        seq![
            ("taskId"@, JsonView::Str(
                match t.short_id {
                    Some(s) => s,
                    None => Seq::empty(),
                },
            )),
            ("fullId"@, JsonView::Str(t.task_id)),
            ("name"@, JsonView::Str(t.name)),
            ("items"@, JsonView::Number(Number::PosInt(t.items.len() as u64))),
            ("status"@, JsonView::Str(status_name(t.status))),
            ("printer"@, opt_text_json(t.printer_name)),
        ],
    )
}

/// `HE_LIST_TASKS`: the open tasks, in the order they are kept.
pub open spec fn list_tasks_spec(m: ManagerView) -> ReplyView {
    answer(
        seq![
            ("ok"@, JsonView::Bool(true)),
            ("tasks"@, JsonView::Array(m.tasks.map_values(|t: TaskView| task_entry(t)))),
        ],
    )
}

/// The text member or the default, read from the parameters.
fn str_param_or(p: &JsonValue, key: &str, d: &str) -> (r: String)
    ensures
        r@ == str_or(p@, key@, d@),
{
    match str_param(p, key) {
        Some(s) => s,
        None => d.to_owned(),
    }
}

/// The reply naming a started task.
fn started_value(short: &str, full: &str, name: &str) -> (r: JsonValue)
    ensures
        reply_view(Ok::<JsonValue, HeError>(r)) == started_reply(short@, full@, name@),
{
    let mut m = empty_object();
    push_member(&mut m, "ok", JsonValue::Bool(true));
    push_member(&mut m, "taskId", json_str(short));
    push_member(&mut m, "fullId", json_str(full));
    push_member(&mut m, "taskName", json_str(name));
    assert(view_members(m@) =~= seq![
        ("ok"@, JsonView::Bool(true)),
        ("taskId"@, JsonView::Str(short@)),
        ("fullId"@, JsonView::Str(full@)),
        ("taskName"@, JsonView::Str(name@)),
    ]);
    JsonValue::Object(m)
}

fn he_init(p: &JsonValue, mgr: &mut TaskManager) -> (out: (Result<JsonValue, HeError>, Ghost<Seq<char>>))
    requires
        manager_wf(old(mgr)@),
    ensures
        manager_wf(final(mgr)@),
        is_uuid_v4_text(out.1@),
        (final(mgr)@, reply_view(out.0)) == init_spec(p@, old(mgr)@, out.1@),
{
    let name = str_param_or(p, "taskName", "untitled");
    let task = mgr.init(name.clone());
    let id = task.task_id.clone();
    let ghost f = task@.task_id;
    let reply = started_value(id.as_str(), id.as_str(), name.as_str());
    proof {
        let c = mgr@.current->0;
        assert(c == fresh_task(f, name@));
        assert(c.options =~= Seq::<(Seq<char>, JsonView)>::empty());
        assert(task_wf(c));
    }
    (Ok(reply), Ghost(f))
}

fn he_open_task(p: &JsonValue, mgr: &mut TaskManager) -> (out: (Result<JsonValue, HeError>, Ghost<Seq<char>>))
    requires
        manager_wf(old(mgr)@),
        old(mgr)@.next_short_id < u32::MAX,
    ensures
        manager_wf(final(mgr)@),
        is_uuid_v4_text(out.1@),
        (final(mgr)@, reply_view(out.0)) == open_task_spec(p@, old(mgr)@, out.1@),
{
    let name = str_param_or(p, "taskName", "untitled");
    let short = mgr.open_task(name.clone());
    let ghost t = choose|t: TaskView|
        #![trigger insert_task(old(mgr)@.tasks, t)]
        {
            &&& t == (TaskView { short_id: Some(short@), ..fresh_task(t.task_id, name@) })
            &&& is_uuid_v4_text(t.task_id)
            &&& mgr@ == (ManagerView {
                tasks: insert_task(old(mgr)@.tasks, t),
                next_short_id: (old(mgr).next_short_id + 1) as u32,
                current: old(mgr)@.current,
            })
        };
    proof {
        crate::task::lemma_insert_task_contains(old(mgr)@.tasks, t);
        crate::task::lemma_short_id_names_task(mgr@, t);
    }
    let full = match mgr.find_task(short.as_str()) {
        Some(i) => {
            assert(mgr@.tasks[i as int] == mgr.tasks@[i as int]@);
            mgr.tasks[i].task_id.clone()
        },
        None => String::new(),
    };
    assert(full@ == t.task_id);
    let reply = started_value(short.as_str(), full.as_str(), name.as_str());
    (Ok(reply), Ghost(t.task_id))
}

fn he_close_task(p: &JsonValue, mgr: &mut TaskManager) -> (r: Result<JsonValue, HeError>)
    requires
        manager_wf(old(mgr)@),
    ensures
        manager_wf(final(mgr)@),
        (final(mgr)@, reply_view(r)) == close_task_spec(p@, old(mgr)@),
{
    let tid = match task_id_param(p) {
        Some(t) => t,
        None => {
            return Err(HeError::coded(ErrorCode::InvalidParam, "缺少 taskId".to_owned()));
        },
    };
    let closed = mgr.close_task(tid.as_str());
    proof {
        if let Some(i) = task_index(old(mgr)@.tasks, tid@) {
            crate::task::lemma_task_index_in_range(old(mgr)@.tasks, tid@);
            lemma_remove_keeps_wf(old(mgr)@, i);
        }
    }
    let mut m = empty_object();
    push_member(&mut m, "ok", JsonValue::Bool(closed));
    assert(view_members(m@) =~= seq![("ok"@, JsonView::Bool(closed))]);
    Ok(JsonValue::Object(m))
}

/// Removing a task keeps the manager well formed.
pub proof fn lemma_remove_keeps_wf(m: ManagerView, i: int)
    requires
        manager_wf(m),
        0 <= i < m.tasks.len(),
    ensures
        manager_wf(ManagerView { tasks: m.tasks.remove(i), ..m }),
{
    let n = ManagerView { tasks: m.tasks.remove(i), ..m };
    assert forall|a: int| #![trigger n.tasks[a]] 0 <= a < n.tasks.len() implies {
        &&& crate::task::short_handed_out(n.tasks[a].short_id, n.next_short_id)
        &&& task_wf(n.tasks[a])
    } by {
        let a2 = if a < i { a } else { a + 1 };
        assert(n.tasks[a] == m.tasks[a2]);
    }
    assert forall|a: int, b: int|
        0 <= a < n.tasks.len() && 0 <= b < n.tasks.len() && a != b implies n.tasks[a].task_id
        != n.tasks[b].task_id && n.tasks[a].short_id != n.tasks[b].short_id by {
        let a2 = if a < i { a } else { a + 1 };
        let b2 = if b < i { b } else { b + 1 };
        assert(n.tasks[a] == m.tasks[a2]);
        assert(n.tasks[b] == m.tasks[b2]);
    }
}

/// An optional text as a JSON value.
fn opt_str_value(t: &Option<String>) -> (r: JsonValue)
    ensures
        r@ == opt_text_json(opt_view(*t)),
{
    match t {
        Some(s) => json_str(s.as_str()),
        None => JsonValue::Null,
    }
}

/// A task as the list shows it.
fn task_entry_value(t: &PrintTask) -> (r: JsonValue)
    ensures
        r@ == task_entry(t@),
{
    let short = match &t.short_id {
        Some(s) => json_str(s.as_str()),
        None => json_str(""),
    };
    proof {
        reveal_strlit("");
        assert(""@ =~= Seq::<char>::empty());
    }
    assert(short@ == JsonView::Str(
        match t@.short_id {
            Some(s) => s,
            None => Seq::empty(),
        },
    ));
    let status = json_str(t.status.name());
    assert(status@ == JsonView::Str(status_name(t@.status)));
    let mut m = empty_object();
    push_member(&mut m, "taskId", short);
    push_member(&mut m, "fullId", json_str(t.task_id.as_str()));
    push_member(&mut m, "name", json_str(t.name.as_str()));
    push_member(&mut m, "items", JsonValue::Number(Number::PosInt(t.items.len() as u64)));
    push_member(&mut m, "status", status);
    push_member(&mut m, "printer", opt_str_value(&t.printer_name));
    assert(t@.items.len() == t.items.len());
    assert(view_members(m@) =~= seq![
        ("taskId"@, JsonView::Str(
            match t@.short_id {
                Some(s) => s,
                None => Seq::empty(),
            },
        )),
        ("fullId"@, JsonView::Str(t@.task_id)),
        ("name"@, JsonView::Str(t@.name)),
        ("items"@, JsonView::Number(Number::PosInt(t@.items.len() as u64))),
        ("status"@, JsonView::Str(status_name(t@.status))),
        ("printer"@, opt_text_json(t@.printer_name)),
    ]);
    let r = JsonValue::Object(m);
    assert(r@ == JsonView::Object(view_members(m@)));
    assert(task_entry(t@)->Object_0 =~= view_members(m@));
    r
}

fn he_list_tasks(mgr: &TaskManager) -> (r: Result<JsonValue, HeError>)
    ensures
        reply_view(r) == list_tasks_spec(mgr@),
{
    let mut list: Vec<JsonValue> = Vec::new();
    let ghost ts = mgr@.tasks;
    for i in 0..mgr.tasks.len()
        invariant
            ts == mgr@.tasks,
            ts.len() == mgr.tasks.len(),
            view_list(list@) == ts.take(i as int).map_values(|t: TaskView| task_entry(t)),
    {
        let e = task_entry_value(&mgr.tasks[i]);
        assert(ts[i as int] == mgr.tasks@[i as int]@);
        let ghost before = list@;
        list.push(e);
        assert(list@.drop_last() =~= before);
        assert(ts.take(i + 1) =~= ts.take(i as int).push(ts[i as int]));
        assert(ts.take(i + 1).map_values(|t: TaskView| task_entry(t)) =~= ts.take(i as int).map_values(
            |t: TaskView| task_entry(t),
        ).push(task_entry(ts[i as int])));
    }
    assert(ts.take(ts.len() as int) =~= ts);
    let mut m = empty_object();
    push_member(&mut m, "ok", JsonValue::Bool(true));
    push_member(&mut m, "tasks", JsonValue::Array(list));
    assert(view_members(m@) =~= seq![
        ("ok"@, JsonView::Bool(true)),
        ("tasks"@, JsonView::Array(ts.map_values(|t: TaskView| task_entry(t)))),
    ]);
    Ok(JsonValue::Object(m))
}

/// The reply to a queued task.
pub open spec fn queued_reply(task_id: Seq<char>, job_id: Seq<char>, q: QueueView) -> ReplyView {
    answer(
        seq![
            ("ok"@, JsonView::Bool(true)),
            ("taskId"@, JsonView::Str(task_id)),
            ("jobId"@, JsonView::Str(job_id)),
            ("queued"@, JsonView::Bool(true)),
            ("runningJobs"@, JsonView::Number(Number::PosInt(q.running.len() as u64))),
            ("queueLength"@, JsonView::Number(Number::PosInt(q.waiting.len() as u64))),
        ],
    )
}

/// The queue with a task added as a job.
pub open spec fn enqueue(q: QueueView, t: TaskView, silent: bool) -> QueueView {
    QueueView { waiting: q.waiting.push(JobView { job_id: t.task_id, task: t, silent }), ..q }
}

/// `HE_PRINT` and `HE_PRINT_SILENT`: the current task is taken and handed
/// to the host to print; the reply is the task's result.
pub open spec fn print_spec(m: ManagerView, silent: bool) -> (ManagerView, StepView) {
    match m.current {
        None => (m, StepView::Reply(fail(ErrorCode::TaskEmpty, "无 current 任务"@))),
        Some(t) => (ManagerView { current: None, ..m }, StepView::Ask(QueryView::Print(t, silent))),
    }
}

/// The mathematical form of a task's result: success, error text, pages.
pub type OutcomeView = (bool, Option<Seq<char>>, Option<u32>);

/// The view of a task's result, without its id.
pub open spec fn outcome_view(r: TaskResult) -> OutcomeView {
    (r.success, opt_view(r.error), r.pages)
}

/// The reply to a printed task: its id, whether it succeeded, and the error
/// text and the page count where there are.
pub open spec fn task_result_reply(task_id: Seq<char>, o: OutcomeView) -> ReplyView {
    answer(
        seq![("taskId"@, JsonView::Str(task_id)), ("success"@, JsonView::Bool(o.0))] + match o.1 {
            Some(e) => seq![("error"@, JsonView::Str(e))],
            None => Seq::empty(),
        } + match o.2 {
            Some(n) => seq![("pages"@, JsonView::Number(Number::PosInt(n as u64)))],
            None => Seq::empty(),
        },
    )
}

/// `HE_PRINT_TASK`: the task an id names goes to the queue, silently unless
/// `silent` is `false`.
pub open spec fn print_task_spec(p: JsonView, m: ManagerView, q: QueueView) -> (ManagerView, QueueView, ReplyView) {
    match tid_of(p) {
        None => (m, q, fail(ErrorCode::InvalidParam, "缺少 taskId"@)),
        Some(id) => {
            let silent = match get_bool(p, "silent"@) {
                Some(b) => b,
                None => true,
            };
            match task_index(m.tasks, id) {
                None => (m, q, fail(ErrorCode::TaskNotFound, "任务不存在: "@ + id)),
                Some(i) => (
                    ManagerView { tasks: m.tasks.remove(i), ..m },
                    enqueue(q, m.tasks[i], silent),
                    queued_reply(id, m.tasks[i].task_id, enqueue(q, m.tasks[i], silent)),
                ),
            }
        },
    }
}

/// The reply to a queued task.
fn queued_value(task_id: &str, job_id: &str, queue: &PrintManager) -> (r: JsonValue)
    ensures
        reply_view(Ok::<JsonValue, HeError>(r)) == queued_reply(task_id@, job_id@, queue@),
{
    let running = queue.running_count();
    let waiting = queue.queue_len();
    let mut m = empty_object();
    push_member(&mut m, "ok", JsonValue::Bool(true));
    push_member(&mut m, "taskId", json_str(task_id));
    push_member(&mut m, "jobId", json_str(job_id));
    push_member(&mut m, "queued", JsonValue::Bool(true));
    push_member(&mut m, "runningJobs", JsonValue::Number(Number::PosInt(running as u64)));
    push_member(&mut m, "queueLength", JsonValue::Number(Number::PosInt(waiting as u64)));
    assert(view_members(m@) =~= seq![
        ("ok"@, JsonView::Bool(true)),
        ("taskId"@, JsonView::Str(task_id@)),
        ("jobId"@, JsonView::Str(job_id@)),
        ("queued"@, JsonView::Bool(true)),
        ("runningJobs"@, JsonView::Number(Number::PosInt(queue@.running.len() as u64))),
        ("queueLength"@, JsonView::Number(Number::PosInt(queue@.waiting.len() as u64))),
    ]);
    JsonValue::Object(m)
}

fn he_print(mgr: &mut TaskManager, silent: bool) -> (r: Step)
    requires
        manager_wf(old(mgr)@),
    ensures
        manager_wf(final(mgr)@),
        (final(mgr)@, step_view(r)) == print_spec(old(mgr)@, silent),
{
    match mgr.take() {
        Some(task) => Step::Ask(HostQuery::Print { task, silent }),
        None => Step::Reply(Err(HeError::coded(ErrorCode::TaskEmpty, "无 current 任务".to_owned()))),
    }
}

/// The reply to a printed task.
fn task_result_value(task_id: &str, o: &TaskResult) -> (r: JsonValue)
    ensures
        reply_view(Ok::<JsonValue, HeError>(r)) == task_result_reply(task_id@, outcome_view(*o)),
{
    let mut m = empty_object();
    push_member(&mut m, "taskId", json_str(task_id));
    push_member(&mut m, "success", JsonValue::Bool(o.success));
    let ghost head = seq![("taskId"@, JsonView::Str(task_id@)), ("success"@, JsonView::Bool(o.success))];
    assert(view_members(m@) =~= head);
    match &o.error {
        Some(e) => {
            push_member(&mut m, "error", json_str(e.as_str()));
        },
        None => {},
    }
    let ghost mid = head + match opt_view(o.error) {
        Some(e) => seq![("error"@, JsonView::Str(e))],
        None => Seq::<(Seq<char>, JsonView)>::empty(),
    };
    assert(view_members(m@) =~= mid);
    match o.pages {
        Some(n) => {
            push_member(&mut m, "pages", JsonValue::Number(Number::PosInt(n as u64)));
        },
        None => {},
    }
    assert(view_members(m@) =~= mid + match o.pages {
        Some(n) => seq![("pages"@, JsonView::Number(Number::PosInt(n as u64)))],
        None => Seq::<(Seq<char>, JsonView)>::empty(),
    });
    JsonValue::Object(m)
}

fn he_print_task(p: &JsonValue, mgr: &mut TaskManager, queue: &mut PrintManager) -> (r: Result<JsonValue, HeError>)
    requires
        manager_wf(old(mgr)@),
    ensures
        manager_wf(final(mgr)@),
        (final(mgr)@, final(queue)@, reply_view(r)) == print_task_spec(p@, old(mgr)@, old(queue)@),
{
    let tid = match task_id_param(p) {
        Some(t) => t,
        None => {
            return Err(HeError::coded(ErrorCode::InvalidParam, "缺少 taskId".to_owned()));
        },
    };
    let silent = match p.get("silent") {
        Some(v) => match v.as_bool() {
            Some(b) => b,
            None => true,
        },
        None => true,
    };
    let task = match mgr.take_task(tid.as_str()) {
        Some(t) => t,
        None => {
            return Err(HeError::coded(ErrorCode::TaskNotFound, "任务不存在: ".to_owned().concat(tid.as_str())));
        },
    };
    proof {
        let i = task_index(old(mgr)@.tasks, tid@)->0;
        crate::task::lemma_task_index_in_range(old(mgr)@.tasks, tid@);
        lemma_remove_keeps_wf(old(mgr)@, i);
    }
    let job_id = queue.submit(task, silent);
    Ok(queued_value(tid.as_str(), job_id.as_str(), queue))
}

/// A reply with one member.
pub open spec fn single(key: Seq<char>, v: JsonView) -> ReplyView {
    answer(seq![(key, v)])
}

/// The reply with one member.
fn single_value(key: &str, v: JsonValue) -> (r: JsonValue)
    ensures
        reply_view(Ok::<JsonValue, HeError>(r)) == single(key@, v@),
{
    let mut m = empty_object();
    push_member(&mut m, key, v);
    assert(view_members(m@) =~= seq![(key@, v@)]);
    JsonValue::Object(m)
}

/// Work that only the host can do before a command is answered: asking the
/// system about its printers, or sending bytes to a printer. Each query
/// keeps what the reply needs.
#[derive(Debug)]
pub enum HostQuery {
    /// `HE_GET_PRINTERS`: the system's printers.
    Printers,
    /// `HE_GET_DEFAULT_PRINTER`: the default printer.
    DefaultPrinter,
    /// `HE_HAS_PRINTER`: whether a printer of this name exists.
    HasPrinter { name: String },
    /// `HE_GET_INFO` for `printerCount`: the system's printers, to count.
    PrinterCount,
    /// `HE_SET_PRINTER` with a negative index: the default printer, for the
    /// command's task.
    DefaultPrinterFor { task_id: Option<String> },
    /// `HE_SET_PRINTER` with an index: the system's printers, for the
    /// command's task.
    IndexedPrinterFor { task_id: Option<String>, index: u64 },
    /// `HE_SET_PRINTER` with a name: whether a printer of that name exists,
    /// for the command's task.
    NamedPrinterFor { task_id: Option<String>, name: String },
    /// `HE_SEND_RAW`: these bytes to this printer.
    SendRaw { printer: String, data: Vec<u8> },
    /// The task that `HE_PRINT` or `HE_PRINT_SILENT` hands over, and whether silently.
    Print { task: PrintTask, silent: bool },
}

/// The mathematical form of a host query.
pub enum QueryView {
    Printers,
    DefaultPrinter,
    HasPrinter(Seq<char>),
    PrinterCount,
    DefaultPrinterFor(Option<Seq<char>>),
    IndexedPrinterFor(Option<Seq<char>>, u64),
    NamedPrinterFor(Option<Seq<char>>, Seq<char>),
    SendRaw(Seq<char>, Seq<u8>),
    Print(TaskView, bool),
}

impl View for HostQuery {
    type V = QueryView;

    open spec fn view(&self) -> QueryView {
        match self {
            HostQuery::Printers => QueryView::Printers,
            HostQuery::DefaultPrinter => QueryView::DefaultPrinter,
            HostQuery::HasPrinter { name } => QueryView::HasPrinter(name@),
            HostQuery::PrinterCount => QueryView::PrinterCount,
            HostQuery::DefaultPrinterFor { task_id } => QueryView::DefaultPrinterFor(opt_view(*task_id)),
            HostQuery::IndexedPrinterFor { task_id, index } => QueryView::IndexedPrinterFor(opt_view(*task_id), *index),
            HostQuery::NamedPrinterFor { task_id, name } => QueryView::NamedPrinterFor(opt_view(*task_id), name@),
            HostQuery::SendRaw { printer, data } => QueryView::SendRaw(printer@, data@),
            HostQuery::Print { task, silent } => QueryView::Print(task@, *silent),
        }
    }
}

/// What the host found for a query.
#[derive(Debug)]
pub enum HostAnswer {
    Printers(Result<Vec<PrinterInfo>, HeError>),
    DefaultPrinter(Result<String, HeError>),
    HasPrinter(Result<bool, HeError>),
    Sent(Result<(), HeError>),
    Printed(TaskResult),
}

/// The view of a host's result: the value, or the error by its view.
pub open spec fn res_view<T, V>(r: Result<T, HeError>, f: spec_fn(T) -> V) -> Result<V, Option<(ErrorCode, Seq<char>)>> {
    match r {
        Ok(x) => Ok(f(x)),
        Err(e) => Err(err_view(e)),
    }
}

/// The mathematical form of a host's answer.
pub enum AnswerView {
    Printers(Result<Seq<PrinterView>, Option<(ErrorCode, Seq<char>)>>),
    DefaultPrinter(Result<Seq<char>, Option<(ErrorCode, Seq<char>)>>),
    HasPrinter(Result<bool, Option<(ErrorCode, Seq<char>)>>),
    Sent(Result<(), Option<(ErrorCode, Seq<char>)>>),
    Printed(OutcomeView),
}

impl View for HostAnswer {
    type V = AnswerView;

    open spec fn view(&self) -> AnswerView {
        match self {
            HostAnswer::Printers(r) => AnswerView::Printers(res_view(*r, |l: Vec<PrinterInfo>| printers_view(l@))),
            HostAnswer::DefaultPrinter(r) => AnswerView::DefaultPrinter(res_view(*r, |n: String| n@)),
            HostAnswer::HasPrinter(r) => AnswerView::HasPrinter(res_view(*r, |b: bool| b)),
            HostAnswer::Sent(r) => AnswerView::Sent(res_view(*r, |u: ()| u)),
            HostAnswer::Printed(o) => AnswerView::Printed(outcome_view(*o)),
        }
    }
}

/// The error a host's answer carries, if any.
pub open spec fn answer_error(a: HostAnswer) -> Option<HeError> {
    match a {
        HostAnswer::Printers(Err(e)) => Some(e),
        HostAnswer::DefaultPrinter(Err(e)) => Some(e),
        HostAnswer::HasPrinter(Err(e)) => Some(e),
        HostAnswer::Sent(Err(e)) => Some(e),
        _ => None,
    }
}

/// The queries whose command fails with the host's own error when the host
/// fails: all but those that fall back to an empty name or a zero count.
pub open spec fn passes_host_error(q: QueryView) -> bool {
    match q {
        QueryView::Printers => true,
        QueryView::DefaultPrinter => true,
        QueryView::HasPrinter(_) => true,
        QueryView::NamedPrinterFor(_, _) => true,
        QueryView::SendRaw(_, _) => true,
        _ => false,
    }
}

/// Whether an answer is of the kind a query asks for.
pub open spec fn answer_fits(q: QueryView, a: AnswerView) -> bool {
    match q {
        QueryView::Printers => a is Printers,
        QueryView::DefaultPrinter => a is DefaultPrinter,
        QueryView::HasPrinter(_) => a is HasPrinter,
        QueryView::PrinterCount => a is Printers,
        QueryView::DefaultPrinterFor(_) => a is DefaultPrinter,
        QueryView::IndexedPrinterFor(_, _) => a is Printers,
        QueryView::NamedPrinterFor(_, _) => a is HasPrinter,
        QueryView::SendRaw(_, _) => a is Sent,
        QueryView::Print(_, _) => a is Printed,
    }
}

/// What a command leads to: its reply, or a query for the host.
#[derive(Debug)]
pub enum Step {
    Reply(Result<JsonValue, HeError>),
    Ask(HostQuery),
}

/// The mathematical form of a step.
pub enum StepView {
    Reply(ReplyView),
    Ask(QueryView),
}

/// The view of a step.
pub open spec fn step_view(s: Step) -> StepView {
    match s {
        Step::Reply(r) => StepView::Reply(reply_view(r)),
        Step::Ask(q) => StepView::Ask(q@),
    }
}

/// The `HE_GET_PRINTERS` reply: the names, and the descriptions.
pub open spec fn printers_reply(l: Seq<PrinterView>) -> ReplyView {
    answer(
        seq![
            ("printers"@, JsonView::Array(l.map_values(|x: PrinterView| JsonView::Str(x.name)))),
            ("details"@, JsonView::Array(l.map_values(|x: PrinterView| printer_json(x)))),
        ],
    )
}

/// The `HE_GET_INFO` reply.
pub open spec fn info_reply(key: Seq<char>, v: JsonView) -> ReplyView {
    answer(seq![("key"@, JsonView::Str(key)), ("value"@, v)])
}

/// The name of the printer at `index` in a listing, or empty text when the
/// listing failed or is shorter.
pub open spec fn indexed_name(r: Result<Seq<PrinterView>, Option<(ErrorCode, Seq<char>)>>, index: u64) -> Seq<char> {
    match r {
        Ok(l) => if index < l.len() {
            l[index as int].name
        } else {
            Seq::empty()
        },
        Err(_) => Seq::empty(),
    }
}

/// The reply to a command once the host has answered its query.
pub open spec fn resume_spec(q: QueryView, a: AnswerView, m: ManagerView) -> (ManagerView, ReplyView) {
    match (q, a) {
        (QueryView::Printers, AnswerView::Printers(r)) => (
            m,
            match r {
                Ok(l) => printers_reply(l),
                Err(e) => Err(e),
            },
        ),
        (QueryView::DefaultPrinter, AnswerView::DefaultPrinter(r)) => (
            m,
            match r {
                Ok(n) => single("name"@, JsonView::Str(n)),
                Err(e) => Err(e),
            },
        ),
        (QueryView::HasPrinter(_), AnswerView::HasPrinter(r)) => (
            m,
            match r {
                Ok(b) => single("exists"@, JsonView::Bool(b)),
                Err(e) => Err(e),
            },
        ),
        (QueryView::PrinterCount, AnswerView::Printers(r)) => (
            m,
            info_reply(
                "printerCount"@,
                JsonView::Number(
                    Number::PosInt(
                        match r {
                            Ok(l) => l.len() as u64,
                            Err(_) => 0,
                        },
                    ),
                ),
            ),
        ),
        (QueryView::DefaultPrinterFor(tid), AnswerView::DefaultPrinter(r)) => set_printer_named(
            m,
            tid,
            match r {
                Ok(n) => n,
                Err(_) => Seq::empty(),
            },
        ),
        (QueryView::IndexedPrinterFor(tid, i), AnswerView::Printers(r)) => set_printer_named(
            m,
            tid,
            indexed_name(r, i),
        ),
        (QueryView::NamedPrinterFor(tid, name), AnswerView::HasPrinter(r)) => match r {
            Ok(true) => set_printer_named(m, tid, name),
            Ok(false) => (m, fail(ErrorCode::PrinterNotFound, "打印机不存在: "@ + name)),
            Err(e) => (m, Err(e)),
        },
        (QueryView::SendRaw(printer, data), AnswerView::Sent(r)) => (
            m,
            match r {
                Ok(_) => answer(
                    seq![
                        ("ok"@, JsonView::Bool(true)),
                        ("printer"@, JsonView::Str(printer)),
                        ("bytes"@, JsonView::Number(Number::PosInt(data.len() as u64))),
                    ],
                ),
                Err(e) => Err(e),
            },
        ),
        (QueryView::Print(t, _), AnswerView::Printed(o)) => (m, task_result_reply(t.task_id, o)),
        _ => (m, Err(None)),
    }
}

/// `HE_SET_PRINTER`: a name is first checked with the host, and one that
/// names no printer is refused; an index (negative for the default printer)
/// is looked up by the host. An empty name is refused at once.
pub open spec fn set_printer_step(p: JsonView, m: ManagerView) -> (ManagerView, StepView) {
    let tid = tid_of(p);
    match jv_get(p, "printer"@) {
        Some(JsonView::Str(name)) => if name.len() == 0 {
            let (m2, r) = set_printer_named(m, tid, name);
            (m2, StepView::Reply(r))
        } else {
            (m, StepView::Ask(QueryView::NamedPrinterFor(tid, name)))
        },
        Some(JsonView::Number(n)) => match number_as_i64(n) {
            Some(i) => if i >= 0 {
                (m, StepView::Ask(QueryView::IndexedPrinterFor(tid, i as u64)))
            } else {
                (m, StepView::Ask(QueryView::DefaultPrinterFor(tid)))
            },
            None => (m, StepView::Ask(QueryView::DefaultPrinterFor(tid))),
        },
        _ => (m, StepView::Reply(fail(ErrorCode::InvalidParam, "printer 参数必须是 string 或 number"@))),
    }
}

/// `HE_SEND_RAW`: `printerName` and `data` are required; `data` is read as
/// hexadecimal when `encoding` is `hex`, else as standard base64.
pub open spec fn send_raw_step(p: JsonView) -> StepView {
    match get_str(p, "printerName"@) {
        None => StepView::Reply(fail(ErrorCode::InvalidParam, "缺少 printerName"@)),
        Some(printer) => match get_str(p, "data"@) {
            None => StepView::Reply(fail(ErrorCode::InvalidParam, "缺少 data"@)),
            Some(d) => if str_or(p, "encoding"@, "base64"@) == "hex"@ {
                match hex_bytes(d) {
                    Ok(b) => StepView::Ask(QueryView::SendRaw(printer, b)),
                    Err(e) => StepView::Reply(fail(ErrorCode::InvalidParam, "hex 解析失败: "@ + e)),
                }
            } else {
                match base64_standard_decode(encode_utf8(d)) {
                    Ok(b) => StepView::Ask(QueryView::SendRaw(printer, b)),
                    Err(e) => StepView::Reply(fail(ErrorCode::InvalidParam, "base64 解析失败: "@ + e)),
                }
            },
        },
    }
}

/// The id of the connection's current task, or `null` when it has none.
pub open spec fn current_id_json(m: ManagerView) -> JsonView {
    match m.current {
        Some(t) => JsonView::Str(t.task_id),
        None => JsonView::Null,
    }
}

/// `HE_GET_INFO`: one fact about the service, by `key` (`version` by
/// default); `taskId` is the current task's id, and the printer count is
/// asked of the host.
pub open spec fn get_info_step(p: JsonView, m: ManagerView, q: QueueView) -> StepView {
    let key = str_or(p, "key"@, "version"@);
    if key == "printerCount"@ {
        StepView::Ask(QueryView::PrinterCount)
    } else {
        StepView::Reply(
            info_reply(
                key,
                if key == "version"@ {
                    JsonView::Str(HE_VERSION@)
                } else if key == "serverIp"@ || key == "clientIp"@ {
                    JsonView::Str("127.0.0.1"@)
                } else if key == "status"@ {
                    JsonView::Str("running"@)
                } else if key == "taskId"@ {
                    current_id_json(m)
                } else if key == "runningJobs"@ {
                    JsonView::Number(Number::PosInt(q.running.len() as u64))
                } else if key == "queueLength"@ {
                    JsonView::Number(Number::PosInt(q.waiting.len() as u64))
                } else {
                    JsonView::Null
                },
            ),
        )
    }
}

/// Sets the printer of the command's task by name.
fn set_printer_name(mgr: &mut TaskManager, tid: &Option<String>, name: String) -> (r: Result<JsonValue, HeError>)
    requires
        manager_wf(old(mgr)@),
    ensures
        manager_wf(final(mgr)@),
        (final(mgr)@, reply_view(r)) == set_printer_named(old(mgr)@, opt_view(*tid), name@),
{
    if chars_of(name.as_str()).len() == 0 {
        return Err(HeError::code(ErrorCode::PrinterNotFound));
    }
    match target_task(mgr, tid) {
        Ok(task) => {
            proof {
                lemma_target_wf(old(mgr)@, opt_view(*tid));
            }
            task.printer_name = Some(name.clone());
            proof {
                lemma_with_target_wf(old(mgr)@, opt_view(*tid), task@);
            }
            let mut m = empty_object();
            push_member(&mut m, "ok", JsonValue::Bool(true));
            push_member(&mut m, "printerName", json_str(name.as_str()));
            assert(view_members(m@) =~= seq![("ok"@, JsonView::Bool(true)), ("printerName"@, JsonView::Str(name@))]);
            Ok(JsonValue::Object(m))
        },
        Err(e) => Err(e),
    }
}

fn he_set_printer(p: &JsonValue, mgr: &mut TaskManager) -> (r: Step)
    requires
        manager_wf(old(mgr)@),
    ensures
        manager_wf(final(mgr)@),
        (final(mgr)@, step_view(r)) == set_printer_step(p@, old(mgr)@),
{
    let tid = task_id_param(p);
    match p.get("printer") {
        Some(JsonValue::String(s)) => if chars_of(s.as_str()).len() == 0 {
            Step::Reply(set_printer_name(mgr, &tid, s.clone()))
        } else {
            Step::Ask(HostQuery::NamedPrinterFor { task_id: tid, name: s.clone() })
        },
        Some(JsonValue::Number(n)) => match n.as_i64() {
            Some(i) => if i >= 0 {
                Step::Ask(HostQuery::IndexedPrinterFor { task_id: tid, index: i as u64 })
            } else {
                Step::Ask(HostQuery::DefaultPrinterFor { task_id: tid })
            },
            None => Step::Ask(HostQuery::DefaultPrinterFor { task_id: tid }),
        },
        _ => Step::Reply(Err(HeError::coded(ErrorCode::InvalidParam, "printer 参数必须是 string 或 number".to_owned()))),
    }
}

fn he_send_raw(p: &JsonValue) -> (r: Step)
    ensures
        step_view(r) == send_raw_step(p@),
{
    let printer = match str_param(p, "printerName") {
        Some(s) => s,
        None => {
            return Step::Reply(Err(HeError::coded(ErrorCode::InvalidParam, "缺少 printerName".to_owned())));
        },
    };
    let data = match str_param(p, "data") {
        Some(s) => s,
        None => {
            return Step::Reply(Err(HeError::coded(ErrorCode::InvalidParam, "缺少 data".to_owned())));
        },
    };
    let encoding = str_param_or(p, "encoding", "base64");
    let bytes = if str_equal(encoding.as_str(), "hex") {
        match decode_hex(data.as_str()) {
            Ok(b) => b,
            Err(e) => {
                return Step::Reply(Err(HeError::coded(ErrorCode::InvalidParam, "hex 解析失败: ".to_owned().concat(e.as_str()))));
            },
        }
    } else {
        match base64_decode(data.as_str().as_bytes()) {
            Ok(b) => b,
            Err(e) => {
                return Step::Reply(Err(HeError::coded(ErrorCode::InvalidParam, "base64 解析失败: ".to_owned().concat(e.as_str()))));
            },
        }
    };
    Step::Ask(HostQuery::SendRaw { printer, data: bytes })
}

fn he_get_info(p: &JsonValue, mgr: &TaskManager, queue: &PrintManager) -> (r: Step)
    ensures
        step_view(r) == get_info_step(p@, mgr@, queue@),
{
    let key = str_param_or(p, "key", "version");
    let k = key.as_str();
    if str_equal(k, "printerCount") {
        return Step::Ask(HostQuery::PrinterCount);
    }
    let v = if str_equal(k, "version") {
        json_str(HE_VERSION)
    } else if str_equal(k, "serverIp") || str_equal(k, "clientIp") {
        json_str("127.0.0.1")
    } else if str_equal(k, "status") {
        json_str("running")
    } else if str_equal(k, "taskId") {
        match &mgr.current {
            Some(t) => json_str(t.task_id.as_str()),
            None => JsonValue::Null,
        }
    } else if str_equal(k, "runningJobs") {
        JsonValue::Number(Number::PosInt(queue.running_count() as u64))
    } else if str_equal(k, "queueLength") {
        JsonValue::Number(Number::PosInt(queue.queue_len() as u64))
    } else {
        JsonValue::Null
    };
    let mut m = empty_object();
    push_member(&mut m, "key", json_str(k));
    push_member(&mut m, "value", v);
    assert(view_members(m@) =~= seq![("key"@, JsonView::Str(key@)), ("value"@, v@)]);
    Step::Reply(Ok(JsonValue::Object(m)))
}

/// The `HE_GET_PRINTERS` reply.
fn printers_value(l: &Vec<PrinterInfo>) -> (r: JsonValue)
    ensures
        reply_view(Ok::<JsonValue, HeError>(r)) == printers_reply(printers_view(l@)),
{
    let ghost pv = printers_view(l@);
    let mut names: Vec<JsonValue> = Vec::new();
    let mut details: Vec<JsonValue> = Vec::new();
    for i in 0..l.len()
        invariant
            pv == printers_view(l@),
            pv.len() == l.len(),
            view_list(names@) == pv.take(i as int).map_values(|x: PrinterView| JsonView::Str(x.name)),
            view_list(details@) == pv.take(i as int).map_values(|x: PrinterView| printer_json(x)),
    {
        assert(pv[i as int] == l@[i as int]@);
        let ghost n0 = names@;
        let ghost d0 = details@;
        names.push(json_str(l[i].name.as_str()));
        details.push(l[i].to_json());
        assert(names@.drop_last() =~= n0);
        assert(details@.drop_last() =~= d0);
        assert(pv.take(i + 1) =~= pv.take(i as int).push(pv[i as int]));
        assert(pv.take(i + 1).map_values(|x: PrinterView| JsonView::Str(x.name)) =~= pv.take(i as int).map_values(
            |x: PrinterView| JsonView::Str(x.name),
        ).push(JsonView::Str(pv[i as int].name)));
        assert(pv.take(i + 1).map_values(|x: PrinterView| printer_json(x)) =~= pv.take(i as int).map_values(
            |x: PrinterView| printer_json(x),
        ).push(printer_json(pv[i as int])));
    }
    assert(pv.take(pv.len() as int) =~= pv);
    let mut m = empty_object();
    push_member(&mut m, "printers", JsonValue::Array(names));
    push_member(&mut m, "details", JsonValue::Array(details));
    assert(view_members(m@) =~= seq![
        ("printers"@, JsonView::Array(pv.map_values(|x: PrinterView| JsonView::Str(x.name)))),
        ("details"@, JsonView::Array(pv.map_values(|x: PrinterView| printer_json(x)))),
    ]);
    JsonValue::Object(m)
}

/// Finishes a command once the host has answered its query.
pub fn resume(query: HostQuery, ans: HostAnswer, mgr: &mut TaskManager) -> (r: Result<JsonValue, HeError>)
    requires
        manager_wf(old(mgr)@),
        answer_fits(query@, ans@),
    ensures
        manager_wf(final(mgr)@),
        (final(mgr)@, reply_view(r)) == resume_spec(query@, ans@, old(mgr)@),
        passes_host_error(query@) && answer_error(ans) is Some ==> r == Err::<JsonValue, HeError>(
            answer_error(ans)->0,
        ),
{
    match (query, ans) {
        (HostQuery::Printers, HostAnswer::Printers(r)) => match r {
            Ok(l) => Ok(printers_value(&l)),
            Err(e) => Err(e),
        },
        (HostQuery::DefaultPrinter, HostAnswer::DefaultPrinter(r)) => match r {
            Ok(n) => Ok(single_value("name", json_str(n.as_str()))),
            Err(e) => Err(e),
        },
        (HostQuery::HasPrinter { name: _ }, HostAnswer::HasPrinter(r)) => match r {
            Ok(b) => Ok(single_value("exists", JsonValue::Bool(b))),
            Err(e) => Err(e),
        },
        (HostQuery::PrinterCount, HostAnswer::Printers(r)) => {
            let n: usize = match r {
                Ok(l) => l.len(),
                Err(_) => 0,
            };
            let mut m = empty_object();
            push_member(&mut m, "key", json_str("printerCount"));
            push_member(&mut m, "value", JsonValue::Number(Number::PosInt(n as u64)));
            assert(view_members(m@) =~= seq![
                ("key"@, JsonView::Str("printerCount"@)),
                ("value"@, JsonView::Number(Number::PosInt(n as u64))),
            ]);
            Ok(JsonValue::Object(m))
        },
        (HostQuery::DefaultPrinterFor { task_id }, HostAnswer::DefaultPrinter(r)) => {
            let name = match r {
                Ok(n) => n,
                Err(_) => String::new(),
            };
            set_printer_name(mgr, &task_id, name)
        },
        (HostQuery::IndexedPrinterFor { task_id, index }, HostAnswer::Printers(r)) => {
            let name = match r {
                Ok(l) => if index < l.len() as u64 {
                    assert(printers_view(l@)[index as int] == l@[index as int]@);
                    l[index as usize].name.clone()
                } else {
                    String::new()
                },
                Err(_) => String::new(),
            };
            set_printer_name(mgr, &task_id, name)
        },
        (HostQuery::NamedPrinterFor { task_id, name }, HostAnswer::HasPrinter(r)) => match r {
            Ok(true) => set_printer_name(mgr, &task_id, name),
            Ok(false) => Err(HeError::coded(ErrorCode::PrinterNotFound, "打印机不存在: ".to_owned().concat(name.as_str()))),
            Err(e) => Err(e),
        },
        (HostQuery::SendRaw { printer, data }, HostAnswer::Sent(r)) => match r {
            Ok(_) => {
                let mut m = empty_object();
                push_member(&mut m, "ok", JsonValue::Bool(true));
                push_member(&mut m, "printer", json_str(printer.as_str()));
                push_member(&mut m, "bytes", JsonValue::Number(Number::PosInt(data.len() as u64)));
                assert(view_members(m@) =~= seq![
                    ("ok"@, JsonView::Bool(true)),
                    ("printer"@, JsonView::Str(printer@)),
                    ("bytes"@, JsonView::Number(Number::PosInt(data@.len() as u64))),
                ]);
                Ok(JsonValue::Object(m))
            },
            Err(e) => Err(e),
        },
        (HostQuery::Print { task, silent: _ }, HostAnswer::Printed(o)) => Ok(task_result_value(task.task_id.as_str(), &o)),
        _ => Err(HeError::Other(String::new())),
    }
}

/// The commands whose new task gets a fresh random id.
pub open spec fn uses_fresh_id(method: Seq<char>) -> bool {
    method == "HE_INIT"@ || method == "HE_OPEN_TASK"@
}

/// A reply that leaves the queue alone.
pub open spec fn reply_only(r: (ManagerView, ReplyView), q: QueueView) -> (ManagerView, QueueView, StepView) {
    (r.0, q, StepView::Reply(r.1))
}

/// A reply that changes nothing.
pub open spec fn just(m: ManagerView, q: QueueView, r: ReplyView) -> (ManagerView, QueueView, StepView) {
    (m, q, StepView::Reply(r))
}

/// What a command does to the connection's tasks and to the print queue,
/// and what it leads to, when a task it starts gets the id `fresh`.
pub open spec fn route(method: Seq<char>, p: JsonView, m: ManagerView, q: QueueView, fresh: Seq<char>) -> (
    ManagerView,
    QueueView,
    StepView,
) {
    if method == "HE_INIT"@ {
        reply_only(init_spec(p, m, fresh), q)
    } else if method == "HE_OPEN_TASK"@ {
        reply_only(open_task_spec(p, m, fresh), q)
    } else if method == "HE_CLOSE_TASK"@ {
        reply_only(close_task_spec(p, m), q)
    } else if method == "HE_LIST_TASKS"@ {
        just(m, q, list_tasks_spec(m))
    } else if method == "HE_VERSION"@ {
        just(m, q, single("version"@, JsonView::Str(HE_VERSION@)))
    } else if method == "HE_ADD_TEXT"@ {
        reply_only(route_add(p, m, text_item(p), true), q)
    } else if method == "HE_ADD_HTML"@ {
        reply_only(route_add(p, m, html_item(p), false), q)
    } else if method == "HE_ADD_TABLE"@ {
        reply_only(route_add(p, m, table_item(p), false), q)
    } else if method == "HE_ADD_IMAGE"@ {
        reply_only(route_add(p, m, image_item(p), false), q)
    } else if method == "HE_ADD_BARCODE"@ {
        reply_only(route_add(p, m, barcode_item(p), false), q)
    } else if method == "HE_ADD_PDF"@ {
        reply_only(route_add(p, m, pdf_item(p), false), q)
    } else if method == "HE_ADD_LINE"@ {
        reply_only(route_add(p, m, line_item(p), false), q)
    } else if method == "HE_ADD_RECT"@ {
        reply_only(route_add(p, m, rect_item(p), false), q)
    } else if method == "HE_SET_STYLE"@ {
        reply_only(set_style_spec(p, m), q)
    } else if method == "HE_SET_PAGE"@ {
        reply_only(set_page_spec(p, m), q)
    } else if method == "HE_SET_PRINTER"@ {
        (set_printer_step(p, m).0, q, set_printer_step(p, m).1)
    } else if method == "HE_SET_COPIES"@ {
        reply_only(set_copies_spec(p, m), q)
    } else if method == "HE_SET_OPTION"@ {
        reply_only(set_option_spec(p, m), q)
    } else if method == "HE_PRINT"@ {
        (print_spec(m, false).0, q, print_spec(m, false).1)
    } else if method == "HE_PRINT_SILENT"@ {
        (print_spec(m, true).0, q, print_spec(m, true).1)
    } else if method == "HE_PRINT_TASK"@ {
        let r = print_task_spec(p, m, q);
        (r.0, r.1, StepView::Reply(r.2))
    } else if method == "HE_PREVIEW"@ {
        just(
            m,
            q,
            answer(seq![("ok"@, JsonView::Bool(true)), ("message"@, JsonView::Str("请用 HE_PRINT 后在系统对话框预览"@))]),
        )
    } else if method == "HE_NEW_PAGE"@ {
        reply_only(new_page_spec(m), q)
    } else if method == "HE_GET_PRINTERS"@ {
        (m, q, StepView::Ask(QueryView::Printers))
    } else if method == "HE_GET_DEFAULT_PRINTER"@ {
        (m, q, StepView::Ask(QueryView::DefaultPrinter))
    } else if method == "HE_HAS_PRINTER"@ {
        match get_str(p, "name"@) {
            None => just(m, q, fail(ErrorCode::InvalidParam, "缺少 name"@)),
            Some(n) => (m, q, StepView::Ask(QueryView::HasPrinter(n))),
        }
    } else if method == "HE_GET_INFO"@ {
        (m, q, get_info_step(p, m, q))
    } else if method == "HE_ON_RESULT"@ {
        just(m, q, single("registered"@, JsonView::Bool(true)))
    } else if method == "HE_SEND_RAW"@ {
        (m, q, send_raw_step(p))
    } else {
        just(m, q, fail(ErrorCode::MethodNotFound, "未知方法: "@ + method))
    }
}

/// The inputs on which the router has no answer: opening a task when the
/// short-id counter is at its limit, or setting a colour style from a text
/// that would be cut inside a character.
pub open spec fn dispatch_panics(method: Seq<char>, p: JsonView, m: ManagerView) -> bool {
    ||| method == "HE_OPEN_TASK"@ && m.next_short_id == u32::MAX
    ||| method == "HE_SET_STYLE"@ && set_style_panics(p, m)
}

/// Runs one protocol command against the connection's tasks and the shared
/// print queue. The command is answered at once, or the step names the
/// query the host must answer before `resume` finishes it.
pub fn dispatch(method: &str, p: &JsonValue, mgr: &mut TaskManager, queue: &mut PrintManager) -> (r: Step)
    requires
        manager_wf(old(mgr)@),
        !dispatch_panics(method@, p@, old(mgr)@),
    ensures
        manager_wf(final(mgr)@),
        exists|fresh: Seq<char>|
            (uses_fresh_id(method@) ==> is_uuid_v4_text(fresh)) && (final(mgr)@, final(queue)@, step_view(r))
                == #[trigger] route(method@, p@, old(mgr)@, old(queue)@, fresh),
{
    let v = chars_of(method);
    let ghost mut fresh: Seq<char> = Seq::empty();
    let step = if chars_equal(&v, "HE_INIT") {
        let (r, Ghost(f)) = he_init(p, mgr);
        proof {
            fresh = f;
        }
        Step::Reply(r)
    } else if chars_equal(&v, "HE_OPEN_TASK") {
        let (r, Ghost(f)) = he_open_task(p, mgr);
        proof {
            fresh = f;
        }
        Step::Reply(r)
    } else if chars_equal(&v, "HE_CLOSE_TASK") {
        Step::Reply(he_close_task(p, mgr))
    } else if chars_equal(&v, "HE_LIST_TASKS") {
        Step::Reply(he_list_tasks(mgr))
    } else if chars_equal(&v, "HE_VERSION") {
        Step::Reply(Ok(single_value("version", json_str(HE_VERSION))))
    } else if chars_equal(&v, "HE_ADD_TEXT") {
        Step::Reply(he_add_text(p, mgr))
    } else if chars_equal(&v, "HE_ADD_HTML") {
        Step::Reply(he_add_html(p, mgr))
    } else if chars_equal(&v, "HE_ADD_TABLE") {
        Step::Reply(he_add_table(p, mgr))
    } else if chars_equal(&v, "HE_ADD_IMAGE") {
        Step::Reply(he_add_image(p, mgr))
    } else if chars_equal(&v, "HE_ADD_BARCODE") {
        Step::Reply(he_add_barcode(p, mgr))
    } else if chars_equal(&v, "HE_ADD_PDF") {
        Step::Reply(he_add_pdf(p, mgr))
    } else if chars_equal(&v, "HE_ADD_LINE") {
        Step::Reply(he_add_line(p, mgr))
    } else if chars_equal(&v, "HE_ADD_RECT") {
        Step::Reply(he_add_rect(p, mgr))
    } else if chars_equal(&v, "HE_SET_STYLE") {
        Step::Reply(he_set_style(p, mgr))
    } else if chars_equal(&v, "HE_SET_PAGE") {
        Step::Reply(he_set_page(p, mgr))
    } else if chars_equal(&v, "HE_SET_PRINTER") {
        he_set_printer(p, mgr)
    } else if chars_equal(&v, "HE_SET_COPIES") {
        Step::Reply(he_set_copies(p, mgr))
    } else if chars_equal(&v, "HE_SET_OPTION") {
        Step::Reply(he_set_option(p, mgr))
    } else if chars_equal(&v, "HE_PRINT") {
        he_print(mgr, false)
    } else if chars_equal(&v, "HE_PRINT_SILENT") {
        he_print(mgr, true)
    } else if chars_equal(&v, "HE_PRINT_TASK") {
        Step::Reply(he_print_task(p, mgr, queue))
    } else if chars_equal(&v, "HE_PREVIEW") {
        let mut m = empty_object();
        push_member(&mut m, "ok", JsonValue::Bool(true));
        push_member(&mut m, "message", json_str("请用 HE_PRINT 后在系统对话框预览"));
        assert(view_members(m@) =~= seq![
            ("ok"@, JsonView::Bool(true)),
            ("message"@, JsonView::Str("请用 HE_PRINT 后在系统对话框预览"@)),
        ]);
        Step::Reply(Ok(JsonValue::Object(m)))
    } else if chars_equal(&v, "HE_NEW_PAGE") {
        Step::Reply(he_new_page(mgr))
    } else if chars_equal(&v, "HE_GET_PRINTERS") {
        Step::Ask(HostQuery::Printers)
    } else if chars_equal(&v, "HE_GET_DEFAULT_PRINTER") {
        Step::Ask(HostQuery::DefaultPrinter)
    } else if chars_equal(&v, "HE_HAS_PRINTER") {
        match str_param(p, "name") {
            Some(n) => Step::Ask(HostQuery::HasPrinter { name: n }),
            None => Step::Reply(Err(HeError::coded(ErrorCode::InvalidParam, "缺少 name".to_owned()))),
        }
    } else if chars_equal(&v, "HE_GET_INFO") {
        he_get_info(p, mgr, queue)
    } else if chars_equal(&v, "HE_ON_RESULT") {
        Step::Reply(Ok(single_value("registered", JsonValue::Bool(true))))
    } else if chars_equal(&v, "HE_SEND_RAW") {
        he_send_raw(p)
    } else {
        Step::Reply(Err(HeError::coded(ErrorCode::MethodNotFound, "未知方法: ".to_owned().concat(method))))
    };
    assert((mgr@, queue@, step_view(step)) == route(method@, p@, old(mgr)@, old(queue)@, fresh));
    step
}

/// Whether `dispatch` has no answer for this command in this state (see
/// `dispatch_panics`); a host checks this before dispatching.
pub fn dispatch_would_panic(method: &str, p: &JsonValue, mgr: &TaskManager) -> (r: bool)
    ensures
        r == dispatch_panics(method@, p@, mgr@),
{
    let v = chars_of(method);
    if chars_equal(&v, "HE_OPEN_TASK") {
        proof {
            reveal_strlit("HE_OPEN_TASK");
            reveal_strlit("HE_SET_STYLE");
            assert("HE_OPEN_TASK"@[3] != "HE_SET_STYLE"@[3]);
        }
        return mgr.next_short_id == 0xffff_ffff;
    }
    if !chars_equal(&v, "HE_SET_STYLE") {
        return false;
    }
    let name = match str_param(p, "name") {
        Some(n) => n,
        None => {
            return false;
        },
    };
    let tid = task_id_param(p);
    let task: &PrintTask = match &tid {
        Some(id) => match mgr.find_task(id.as_str()) {
            Some(i) => {
                proof {
                    crate::task::lemma_task_index_in_range(mgr@.tasks, id@);
                }
                assert(mgr@.tasks[i as int] == mgr.tasks@[i as int]@);
                &mgr.tasks[i]
            },
            None => {
                return false;
            },
        },
        None => match &mgr.current {
            Some(t) => t,
            None => {
                return false;
            },
        },
    };
    assert(target_of(mgr@, tid_of(p@)) == Some(task@));
    let n = task.items.len();
    if n == 0 {
        return false;
    }
    assert(task@.items.last() == task.items@[n - 1]@);
    if matches!(task.items[n - 1], PrintItem::PageBreak) {
        return false;
    }
    let nv = chars_of(name.as_str());
    if !(chars_equal(&nv, "FontColor") || chars_equal(&nv, "BackColor")) {
        return false;
    }
    match p.get("value") {
        Some(x) => match x.as_str() {
            Some(s) => !color_text_is_safe(s),
            None => false,
        },
        None => false,
    }
}

} // verus!
