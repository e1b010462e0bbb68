//! Planning a print job: which printer, how many copies, and how the items
//! fall onto pages. The host draws and feeds the pages as the plan says.

use vstd::prelude::*;
use crate::error::{ErrorCode, HeError, code_message, is_coded};
use crate::item::{ItemView, PrintItem};
use crate::style::{Alignment, PrintStyle, Rgb, StyleView, rgb_of};
use crate::task::{PrintTask, TaskResult, TaskView, items_view, only_page_breaks};
use crate::text::chars_of;
use crate::types::Rect;

verus! {

/// One step of drawing a task: start a page, draw the item at an index,
/// end the page.
#[derive(Debug, Clone, Copy, PartialEq, Eq, Structural)]
pub enum PageStep {
    Start,
    Draw(usize),
    End,
}

/// The steps for the first items of a task, and whether a page is open
/// after them: a page break ends an open page; any other item opens a page
/// when none is open, and is drawn on it.
pub open spec fn plan_prefix(items: Seq<ItemView>) -> (Seq<PageStep>, bool)
    decreases items.len(),
{
    if items.len() == 0 {
        (Seq::empty(), false)
    } else {
        let (s, open) = plan_prefix(items.drop_last());
        let i = (items.len() - 1) as usize;
        if items.last() is PageBreak {
            if open {
                (s.push(PageStep::End), false)
            } else {
                (s, false)
            }
        } else if open {
            (s.push(PageStep::Draw(i)), true)
        } else {
            (s.push(PageStep::Start).push(PageStep::Draw(i)), true)
        }
    }
}

/// The steps for all items of a task, the last open page ended.
pub open spec fn page_plan(items: Seq<ItemView>) -> Seq<PageStep> {
    let (s, open) = plan_prefix(items);
    if open {
        s.push(PageStep::End)
    } else {
        s
    }
}

/// The number of pages a plan starts.
pub open spec fn pages_started(s: Seq<PageStep>) -> nat
    decreases s.len(),
{
    if s.len() == 0 {
        0
    } else {
        pages_started(s.drop_last()) + if s.last() is Start { 1nat } else { 0nat }
    }
}

/// How the items of a task fall onto pages.
pub fn plan_pages(items: &Vec<PrintItem>) -> (r: Vec<PageStep>)
    requires
        items.len() < usize::MAX,
    ensures
        r@ == page_plan(items_view(items@)),
{
    let ghost iv = items_view(items@);
    let mut steps: Vec<PageStep> = Vec::new();
    let mut open = false;
    for i in 0..items.len()
        invariant
            iv == items_view(items@),
            iv.len() == items.len(),
            (steps@, open) == plan_prefix(iv.take(i as int)),
    {
        assert(iv.take(i + 1).drop_last() =~= iv.take(i as int));
        assert(iv.take(i + 1).last() == items@[i as int]@);
        if matches!(items[i], PrintItem::PageBreak) {
            if open {
                steps.push(PageStep::End);
                open = false;
            }
        } else {
            if !open {
                steps.push(PageStep::Start);
                open = true;
            }
            steps.push(PageStep::Draw(i));
        }
    }
    assert(iv.take(items.len() as int) =~= iv);
    if open {
        steps.push(PageStep::End);
    }
    steps
}

/// The number of pages a plan starts.
pub fn count_pages(steps: &Vec<PageStep>) -> (r: u32)
    requires
        steps.len() <= u32::MAX,
    ensures
        r == pages_started(steps@),
{
    let mut n: u32 = 0;
    for i in 0..steps.len()
        invariant
            steps.len() <= u32::MAX,
            n == pages_started(steps@.take(i as int)),
            n <= i,
    {
        assert(steps@.take(i + 1).drop_last() =~= steps@.take(i as int));
        if matches!(steps[i], PageStep::Start) {
            n = n + 1;
        }
    }
    assert(steps@.take(steps.len() as int) =~= steps@);
    n
}

/// What printing a task takes: the printer, the number of copies, and the
/// page steps of one copy.
#[derive(Debug)]
pub struct PrintPlan {
    pub printer: String,
    pub copies: u32,
    pub steps: Vec<PageStep>,
}

/// The number of pages a plan starts, counted without a bound on its length.
fn started_pages(steps: &Vec<PageStep>) -> (r: u64)
    ensures
        r == pages_started(steps@),
{
    let mut n: u64 = 0;
    for i in 0..steps.len()
        invariant
            n == pages_started(steps@.take(i as int)),
            n <= i,
    {
        assert(steps@.take(i + 1).drop_last() =~= steps@.take(i as int));
        if matches!(steps[i], PageStep::Start) {
            n = n + 1;
        }
    }
    assert(steps@.take(steps.len() as int) =~= steps@);
    n
}

/// The result of a task printed by a plan: every copy starts the plan's
/// pages, so the pages printed are the copies times the pages of one copy.
/// `None` when that number does not fit in a `u32`.
pub fn printed_result(task_id: String, plan: &PrintPlan) -> (r: Option<TaskResult>)
    ensures
        match r {
            None => plan.copies * pages_started(plan.steps@) > u32::MAX,
            Some(t) => plan.copies * pages_started(plan.steps@) <= u32::MAX && t.task_id@ == task_id@ && t.success
                && t.error is None && t.pages == Some((plan.copies * pages_started(plan.steps@)) as u32),
        },
{
    let n = started_pages(&plan.steps);
    let c = plan.copies as u128;
    let m = n as u128;
    assert(c * m <= 0xffff_ffff_ffff_ffff_ffff_ffff_ffff_ffff) by (nonlinear_arith)
        requires
            c <= 0xffff_ffff,
            m <= 0xffff_ffff_ffff_ffff,
    ;
    let total: u128 = c * m;
    if total > 0xffff_ffff {
        None
    } else {
        Some(TaskResult::success(task_id, total as u32))
    }
}

/// The printer a task is printed on: its own printer if it names one, else
/// the system default when the host found one; an empty name is no printer.
pub open spec fn chosen_printer(own: Option<Seq<char>>, default: Option<Seq<char>>) -> Option<Seq<char>> {
    let p = match own {
        Some(n) => Some(n),
        None => default,
    };
    match p {
        Some(n) => if n.len() == 0 {
            None
        } else {
            Some(n)
        },
        None => None,
    }
}

/// Plans printing a task. `default_printer` is the system default printer
/// as the host found it (`None` when it found none or failed); it is used
/// only when the task names no printer. A task without a printer, or with
/// nothing but page breaks, is refused.
pub fn plan_print(task: &PrintTask, default_printer: Option<String>) -> (r: Result<PrintPlan, HeError>)
    requires
        task.items.len() < usize::MAX,
    ensures
        match chosen_printer(task@.printer_name, crate::task::opt_view(default_printer)) {
            None => r matches Err(e) && is_coded(e, ErrorCode::PrinterNotFound, code_message(ErrorCode::PrinterNotFound)),
            Some(p) => if only_page_breaks(task@.items) {
                r matches Err(e) && is_coded(e, ErrorCode::TaskEmpty, code_message(ErrorCode::TaskEmpty))
            } else {
                r matches Ok(plan) && plan.printer@ == p && plan.copies == (if task.copies < 1 { 1 } else { task.copies })
                    && plan.steps@ == page_plan(task@.items)
            },
        },
{
    let p = match &task.printer_name {
        Some(n) => Some(n.clone()),
        None => default_printer,
    };
    let printer = match p {
        Some(n) => if chars_of(n.as_str()).len() == 0 {
            None
        } else {
            Some(n)
        },
        None => None,
    };
    let printer = match printer {
        Some(n) => n,
        None => {
            return Err(HeError::code(ErrorCode::PrinterNotFound));
        },
    };
    if task.is_empty() {
        return Err(HeError::code(ErrorCode::TaskEmpty));
    }
    let copies = if task.copies < 1 { 1 } else { task.copies };
    Ok(PrintPlan { printer, copies, steps: plan_pages(&task.items) })
}

/// A colour as a GDI `COLORREF`: `0x00BBGGRR`.
pub open spec fn colorref_of(c: Rgb) -> int {
    c.0 + c.1 * 256 + c.2 * 65536
}

/// A colour as a GDI `COLORREF`.
pub fn rgb_to_colorref(rgb: [u8; 3]) -> (r: u32)
    ensures
        r == colorref_of(rgb_of(rgb)),
{
    let r = rgb[0] as u32;
    let g = rgb[1] as u32;
    let b = rgb[2] as u32;
    let v = r | (g << 8) | (b << 16);
    assert(v == r + g * 256 + b * 65536) by (bit_vector)
        requires
            r < 256,
            g < 256,
            b < 256,
            v == r | (g << 8) | (b << 16),
    ;
    v
}

/// How text is aligned in its box.
#[derive(Debug, Clone, Copy, PartialEq, Eq, Structural)]
pub enum TextAlign {
    Left,
    Center,
    Right,
}

/// How a text item is drawn: font, weight, slant, underline, colour,
/// alignment, and whether it wraps inside its box (only a box of positive
/// width and height does; other text is drawn on one line from the
/// top-left corner). The font size is left to the host, in points.
#[derive(Debug)]
pub struct TextLook {
    pub font_name: String,
    pub weight: i32,
    pub italic: bool,
    pub underline: bool,
    pub color: u32,
    pub align: TextAlign,
    pub wrap: bool,
}

/// The font a style asks for, `Microsoft YaHei` by default.
pub open spec fn font_of(st: StyleView) -> Seq<char> {
    match st.font_name {
        Some(n) => n,
        None => "Microsoft YaHei"@,
    }
}

/// The alignment a style asks for; left unless centre or right is set.
pub open spec fn align_of(st: StyleView) -> TextAlign {
    match st.alignment {
        Some(Alignment::Center) => TextAlign::Center,
        Some(Alignment::Right) => TextAlign::Right,
        _ => TextAlign::Left,
    }
}

/// A flag of a style, `false` when unset.
pub open spec fn flag(f: Option<bool>) -> bool {
    match f {
        Some(b) => b,
        None => false,
    }
}

/// How a text item with this style is drawn in this box.
pub fn text_look(style: &PrintStyle, bounds: Rect) -> (r: TextLook)
    ensures
        r.font_name@ == font_of(style@),
        r.weight == (if flag(style@.bold) { 700i32 } else { 400i32 }),
        r.italic == flag(style@.italic),
        r.underline == flag(style@.underline),
        r.color == colorref_of(
            match style@.font_color {
                Some(c) => c,
                None => (0u8, 0u8, 0u8),
            },
        ),
        r.align == align_of(style@),
        r.wrap == (bounds.width > 0 && bounds.height > 0),
{
    let font_name = match &style.font_name {
        Some(n) => n.clone(),
        None => "Microsoft YaHei".to_owned(),
    };
    let bold = match style.bold {
        Some(b) => b,
        None => false,
    };
    let color = match style.font_color {
        Some(c) => c,
        None => [0u8, 0u8, 0u8],
    };
    let align = match style.alignment {
        Some(Alignment::Center) => TextAlign::Center,
        Some(Alignment::Right) => TextAlign::Right,
        _ => TextAlign::Left,
    };
    TextLook {
        font_name,
        weight: if bold { 700 } else { 400 },
        italic: match style.italic {
            Some(b) => b,
            None => false,
        },
        underline: match style.underline {
            Some(b) => b,
            None => false,
        },
        color: rgb_to_colorref(color),
        align,
        wrap: bounds.width > 0 && bounds.height > 0,
    }
}

/// Whether a PDF item's content is drawn as an embedded image: a data URL
/// of an image or of a PDF. Other content is drawn as a placeholder text.
pub open spec fn pdf_drawn_as_image(content: Seq<char>) -> bool {
    crate::text::has_prefix(content, "data:image/"@) || crate::text::has_prefix(content, "data:application/pdf"@)
}

/// The text drawn for a PDF item that cannot be shown as an image.
pub open spec fn pdf_placeholder() -> Seq<char> {
    "[PDF 文档 - 请用浏览器原生打印查看完整内容]"@
}

/// Whether a PDF item's content is tried as an embedded image.
pub fn pdf_as_image(content: &str) -> (r: bool)
    ensures
        r == pdf_drawn_as_image(content@),
{
    let v = chars_of(content);
    crate::text::starts_with_chars(&v, "data:image/") || crate::text::starts_with_chars(&v, "data:application/pdf")
}

} // verus!
