//! Properties of the protocol that span several commands, proved over the
//! specifications of the commands.

use vstd::prelude::*;
use crate::error::ErrorCode;
use crate::types::BarcodeType;
use crate::item::ItemView;
use crate::json::{JsonView, Number, get_str, get_u64, jv_as_i64};
use crate::item::style_of;
use crate::style::{Alignment, style_with, StyleView, known_style_name, flag_of, alignment_of};
use crate::plan::{TextAlign, align_of, PageStep, page_plan, plan_prefix, pages_started};
use crate::queue::{JobView, QueueView, without_id};
use crate::render::{edge_bound, fit_size_spec, round_div};
use crate::router::{
    answer, copies_param, fail, init_spec, just, set_style_spec, value_or_null, with_last_style, open_task_spec, opened_task, print_spec, route, route_add,
    started_reply, target_of, task_name_param, text_item, tid_of, close_task_spec, with_target, QueryView, StepView,
    barcode_item, barcode_type_of, get_either, rect_param, get_info_step,
};
use crate::task::{
    TaskManager, ManagerView, TaskView, fresh_task, manager_wf, only_page_breaks, short_text, task_index,
    task_wf, lemma_insert_task_contains, lemma_open_keeps_wf, lemma_short_id_names_task,
    lemma_task_index_in_range, lemma_task_index_none, is_uuid_v4_text, short_handed_out,
    lemma_short_not_uuid,
};
use crate::command::{HeCommand, command_name};
use crate::codec::{hex_bytes, hex_pairs, strip_white};
use crate::html::{Scan, html_text, join_lines, scan, scan_start, scan_step, split_lines, trim_each};
use crate::text::{trim, trim_end, trim_start, hex_digit_value, hex_digits_value, is_hex_digit, is_white_space, radix16_u8, ascii_lower_seq};

verus! {

/// A task opened with `HE_OPEN_TASK` is named by the short id its reply
/// gives: a later command with that `taskId` acts on exactly that task.
pub proof fn opened_task_is_named_by_its_short_id(p: JsonView, m: ManagerView, fresh: Seq<char>)
    requires
        manager_wf(m),
        m.next_short_id < u32::MAX,
        is_uuid_v4_text(fresh),
    ensures
        ({
            let (m2, r) = open_task_spec(p, m, fresh);
            let short = short_text(m.next_short_id as nat);
            &&& r == started_reply(short, fresh, task_name_param(p))
            &&& manager_wf(m2)
            &&& target_of(m2, Some(short)) == Some(opened_task(task_name_param(p), m.next_short_id as nat, fresh))
        }),
{
    let t = opened_task(task_name_param(p), m.next_short_id as nat, fresh);
    assert(task_wf(t)) by {
        assert(t.options =~= Seq::<(Seq<char>, JsonView)>::empty());
    }
    lemma_open_keeps_wf(m, t);
    let m2 = open_task_spec(p, m, fresh).0;
    lemma_insert_task_contains(m.tasks, t);
    lemma_short_id_names_task(m2, t);
}

/// Taking a freshly opened task by the short id its reply gave restores the
/// task list as it was before the open; the same task is named by its full
/// id, and taking by the short id a second time finds nothing. (The fresh
/// full id is new to the list.)
pub proof fn taking_an_opened_task_restores_the_list(p: JsonView, m: ManagerView, fresh: Seq<char>)
    requires
        manager_wf(m),
        m.next_short_id < u32::MAX,
        is_uuid_v4_text(fresh),
        forall|j: int| 0 <= j < m.tasks.len() ==> m.tasks[j].task_id != fresh,
    ensures
        ({
            let m2 = open_task_spec(p, m, fresh).0;
            let s = short_text(m.next_short_id as nat);
            let n = m.tasks.len() as int;
            &&& task_index(m2.tasks, s) == Some(n)
            &&& task_index(m2.tasks, fresh) == Some(n)
            &&& m2.tasks[n] == opened_task(task_name_param(p), m.next_short_id as nat, fresh)
            &&& m2.tasks.remove(n) == m.tasks
            &&& task_index(m2.tasks.remove(n), s) is None
            &&& m2.current == m.current
        }),
{
    let k = m.next_short_id as nat;
    let t = opened_task(task_name_param(p), k, fresh);
    TaskManager::taking_an_opened_task_gives_the_list_back(m, open_task_spec(p, m, fresh).0, short_text(k), t);
}

/// A command addressed to a task by id changes that task only: every other
/// task, the current task and the short-id counter stay as they were.
pub proof fn addressed_command_leaves_other_tasks(m: ManagerView, id: Seq<char>, t: TaskView)
    requires
        task_index(m.tasks, id) is Some,
    ensures
        ({
            let i = task_index(m.tasks, id)->0;
            let n = with_target(m, Some(id), t);
            &&& n.tasks.len() == m.tasks.len()
            &&& n.tasks[i] == t
            &&& forall|j: int| 0 <= j < m.tasks.len() && j != i ==> n.tasks[j] == m.tasks[j]
            &&& n.current == m.current
            &&& n.next_short_id == m.next_short_id
        }),
{
    lemma_task_index_in_range(m.tasks, id);
}

/// Closing a task by its short id twice: the first close removes it, the
/// second finds nothing and changes nothing.
pub proof fn closing_twice_finds_nothing_the_second_time(p: JsonView, m: ManagerView)
    requires
        manager_wf(m),
        tid_of(p) matches Some(s) && exists|i: int| 0 <= i < m.tasks.len() && m.tasks[i].short_id == Some(s),
    ensures
        ({
            let (m2, r1) = close_task_spec(p, m);
            let (m3, r2) = close_task_spec(p, m2);
            &&& r1 == answer(seq![("ok"@, JsonView::Bool(true))])
            &&& m2.tasks.len() + 1 == m.tasks.len()
            &&& r2 == answer(seq![("ok"@, JsonView::Bool(false))])
            &&& m3 == m2
        }),
{
    let s = tid_of(p)->0;
    let i = choose|i: int| 0 <= i < m.tasks.len() && m.tasks[i].short_id == Some(s);
    lemma_short_id_names_task(m, m.tasks[i]);
    lemma_task_index_in_range(m.tasks, s);
    let k = task_index(m.tasks, s)->0;
    assert(k == i) by {
        if k != i {
            assert(m.tasks[k].short_id != m.tasks[i].short_id);
        }
    }
    let rest = m.tasks.remove(i);
    assert(short_handed_out(m.tasks[i].short_id, m.next_short_id));
    let ks = choose|ks: nat| 1 <= ks < m.next_short_id && m.tasks[i].short_id == Some(short_text(ks));
    lemma_short_not_uuid(ks);
    assert forall|j: int| 0 <= j < rest.len() implies rest[j].short_id != Some(s) && rest[j].task_id != s by {
        let j2 = if j < i { j } else { j + 1 };
        assert(rest[j] == m.tasks[j2]);
        assert(m.tasks[j2].short_id != m.tasks[i].short_id);
        assert(is_uuid_v4_text(m.tasks[j2].task_id));
    }
    lemma_task_index_none(rest, s);
}

/// What is built on the current task is what is printed: after `HE_INIT`,
/// an added text and `HE_PRINT`, the host is asked to print the fresh task
/// with that one item, and no current task is left.
pub proof fn what_is_built_is_printed(
    p_init: JsonView,
    p_text: JsonView,
    m: ManagerView,
    fresh: Seq<char>,
    silent: bool,
)
    requires
        tid_of(p_text) is None,
        text_item(p_text) is Ok,
    ensures
        ({
            let m1 = init_spec(p_init, m, fresh).0;
            let m2 = route_add(p_text, m1, text_item(p_text), true).0;
            let (m3, step) = print_spec(m2, silent);
            &&& step == StepView::Ask(QueryView::Print(
                TaskView { items: seq![text_item(p_text)->Ok_0], ..fresh_task(fresh, task_name_param(p_init)) },
                silent,
            ))
            &&& m3.current is None
            &&& m3.tasks == m.tasks
        }),
{
    let t0 = fresh_task(fresh, task_name_param(p_init));
    assert(t0.items.push(text_item(p_text)->Ok_0) =~= seq![text_item(p_text)->Ok_0]);
}

/// The method names the router knows.
pub open spec fn known_method(method: Seq<char>) -> bool {
    ||| method == "HE_INIT"@
    ||| method == "HE_OPEN_TASK"@
    ||| method == "HE_CLOSE_TASK"@
    ||| method == "HE_LIST_TASKS"@
    ||| method == "HE_VERSION"@
    ||| method == "HE_ADD_TEXT"@
    ||| method == "HE_ADD_HTML"@
    ||| method == "HE_ADD_TABLE"@
    ||| method == "HE_ADD_IMAGE"@
    ||| method == "HE_ADD_BARCODE"@
    ||| method == "HE_ADD_PDF"@
    ||| method == "HE_ADD_LINE"@
    ||| method == "HE_ADD_RECT"@
    ||| method == "HE_SET_STYLE"@
    ||| method == "HE_SET_PAGE"@
    ||| method == "HE_SET_PRINTER"@
    ||| method == "HE_SET_COPIES"@
    ||| method == "HE_SET_OPTION"@
    ||| method == "HE_PRINT"@
    ||| method == "HE_PRINT_SILENT"@
    ||| method == "HE_PRINT_TASK"@
    ||| method == "HE_PREVIEW"@
    ||| method == "HE_NEW_PAGE"@
    ||| method == "HE_GET_PRINTERS"@
    ||| method == "HE_GET_DEFAULT_PRINTER"@
    ||| method == "HE_HAS_PRINTER"@
    ||| method == "HE_GET_INFO"@
    ||| method == "HE_ON_RESULT"@
    ||| method == "HE_SEND_RAW"@
}

/// Every command of the model is a method the router knows, and exactly the
/// unknown methods are refused as not found, changing nothing.
pub proof fn only_unknown_methods_are_refused(
    c: HeCommand,
    method: Seq<char>,
    p: JsonView,
    m: ManagerView,
    q: QueueView,
    fresh: Seq<char>,
)
    ensures
        known_method(command_name(c)),
        !known_method(method) ==> route(method, p, m, q, fresh) == just(
            m,
            q,
            fail(ErrorCode::MethodNotFound, "未知方法: "@ + method),
        ),
{
}

proof fn lemma_without_absent(s: Seq<Seq<char>>, id: Seq<char>)
    requires
        !s.contains(id),
    ensures
        without_id(s, id) == s,
    decreases s.len(),
{
    reveal(Seq::filter);
    if s.len() > 0 {
        assert(!s.drop_last().contains(id)) by {
            if s.drop_last().contains(id) {
                let k = choose|k: int| 0 <= k < s.drop_last().len() && s.drop_last()[k] == id;
                assert(s[k] == id);
            }
        }
        lemma_without_absent(s.drop_last(), id);
        assert(s[s.len() - 1] != id);
        assert(s.drop_last().push(s.last()) =~= s);
    } else {
        assert(s.filter(|x: Seq<char>| x != id) =~= s);
    }
}

/// A job that is taken and then finished leaves the running jobs as they
/// were, when no job with its id was running before.
pub proof fn finishing_a_taken_job_restores_running(running: Seq<Seq<char>>, id: Seq<char>)
    requires
        !running.contains(id),
    ensures
        without_id(running.push(id), id) == running,
{
    reveal(Seq::filter);
    assert(running.push(id).drop_last() =~= running);
    lemma_without_absent(running, id);
}

/// A page rendered to fit a target keeps its aspect ratio by touching the
/// target on one side: its width is the bounded target width, or its height
/// the bounded target height.
pub proof fn fitted_page_touches_the_target(sw: u32, sh: u32, tw: u32, th: u32)
    requires
        sw > 0 || sh > 0,
    ensures
        fit_size_spec(sw, sh, tw, th).0 == edge_bound(tw) || fit_size_spec(sw, sh, tw, th).1 == edge_bound(th),
{
    let mw = edge_bound(tw);
    let mh = edge_bound(th);
    if mw * sh <= mh * sw {
        assert(sw > 0) by (nonlinear_arith)
            requires
                mw * sh <= mh * sw,
                mw >= 1,
                sw > 0 || sh > 0,
        ;
        assert(2 * (sw * mw) + sw == mw * (2 * sw) + sw) by (nonlinear_arith);
        vstd::arithmetic::div_mod::lemma_fundamental_div_mod_converse(2 * (sw * mw) + sw, 2 * sw, mw, sw as int);
        assert(round_div(sw * mw, sw as int) == mw);
    } else {
        assert(sh > 0) by (nonlinear_arith)
            requires
                mw * sh > mh * sw,
                mh >= 1,
        ;
        assert(2 * (sh * mh) + sh == mh * (2 * sh) + sh) by (nonlinear_arith);
        vstd::arithmetic::div_mod::lemma_fundamental_div_mod_converse(2 * (sh * mh) + sh, 2 * sh, mh, sh as int);
        assert(round_div(sh * mh, sh as int) == mh);
    }
}

/// The indices of the items drawn by a plan, in order.
pub open spec fn drawn(s: Seq<PageStep>) -> Seq<usize>
    decreases s.len(),
{
    if s.len() == 0 {
        Seq::empty()
    } else {
        match s.last() {
            PageStep::Draw(i) => drawn(s.drop_last()).push(i),
            _ => drawn(s.drop_last()),
        }
    }
}

/// The indices of the items that are not page breaks, in order.
pub open spec fn printable(items: Seq<ItemView>) -> Seq<usize>
    decreases items.len(),
{
    if items.len() == 0 {
        Seq::empty()
    } else if items.last() is PageBreak {
        printable(items.drop_last())
    } else {
        printable(items.drop_last()).push((items.len() - 1) as usize)
    }
}

proof fn lemma_drawn_push(s: Seq<PageStep>, x: PageStep)
    ensures
        drawn(s.push(x)) == match x {
            PageStep::Draw(i) => drawn(s).push(i),
            _ => drawn(s),
        },
{
    assert(s.push(x).drop_last() =~= s);
}

proof fn lemma_pages_push(s: Seq<PageStep>, x: PageStep)
    ensures
        pages_started(s.push(x)) == pages_started(s) + if x is Start { 1nat } else { 0nat },
{
    assert(s.push(x).drop_last() =~= s);
}

proof fn lemma_breaks_prefix(items: Seq<ItemView>)
    requires
        items.len() > 0,
    ensures
        only_page_breaks(items) <==> only_page_breaks(items.drop_last()) && items.last() is PageBreak,
{
    let rest = items.drop_last();
    if only_page_breaks(rest) && items.last() is PageBreak {
        assert forall|j: int| 0 <= j < items.len() implies items[j] is PageBreak by {
            if j < rest.len() {
                assert(items[j] == rest[j]);
            }
        }
    }
    if only_page_breaks(items) {
        assert forall|j: int| 0 <= j < rest.len() implies rest[j] is PageBreak by {
            assert(items[j] == rest[j]);
        }
        assert(items[items.len() - 1] is PageBreak);
    }
}

proof fn lemma_prefix_draws(items: Seq<ItemView>)
    ensures
        drawn(plan_prefix(items).0) == printable(items),
        plan_prefix(items).1 == (items.len() > 0 && !(items.last() is PageBreak)),
        pages_started(plan_prefix(items).0) == 0 <==> only_page_breaks(items),
    decreases items.len(),
{
    if items.len() > 0 {
        let rest = items.drop_last();
        lemma_prefix_draws(rest);
        lemma_breaks_prefix(items);
        let (s, open) = plan_prefix(rest);
        let i = (items.len() - 1) as usize;
        if items.last() is PageBreak {
            if open {
                lemma_drawn_push(s, PageStep::End);
                lemma_pages_push(s, PageStep::End);
            }
        } else {
            if open {
                lemma_drawn_push(s, PageStep::Draw(i));
                lemma_pages_push(s, PageStep::Draw(i));
                lemma_breaks_prefix(rest);
            } else {
                lemma_drawn_push(s, PageStep::Start);
                lemma_drawn_push(s.push(PageStep::Start), PageStep::Draw(i));
                lemma_pages_push(s, PageStep::Start);
                lemma_pages_push(s.push(PageStep::Start), PageStep::Draw(i));
            }
        }
    }
}

/// Every item but the page breaks is drawn exactly once, in the task's
/// order, and a task prints no page at all exactly when it holds nothing
/// but page breaks.
pub proof fn every_item_is_drawn_once_in_order(items: Seq<ItemView>)
    ensures
        drawn(page_plan(items)) == printable(items),
        pages_started(page_plan(items)) == 0 <==> only_page_breaks(items),
{
    lemma_prefix_draws(items);
    let (s, open) = plan_prefix(items);
    if open {
        lemma_drawn_push(s, PageStep::End);
        lemma_pages_push(s, PageStep::End);
    }
}

/// The lower-case hexadecimal digit for `d < 16`.
pub open spec fn hex_char(d: int) -> char {
    if d == 0 { '0' } else if d == 1 { '1' } else if d == 2 { '2' } else if d == 3 { '3' }
    else if d == 4 { '4' } else if d == 5 { '5' } else if d == 6 { '6' } else if d == 7 { '7' }
    else if d == 8 { '8' } else if d == 9 { '9' } else if d == 10 { 'a' } else if d == 11 { 'b' }
    else if d == 12 { 'c' } else if d == 13 { 'd' } else if d == 14 { 'e' } else { 'f' }
}

/// Bytes written in hexadecimal, two lower-case digits each.
pub open spec fn hex_text(b: Seq<u8>) -> Seq<char>
    decreases b.len(),
{
    if b.len() == 0 {
        Seq::empty()
    } else {
        seq![hex_char((b[0] / 16) as int), hex_char((b[0] % 16) as int)] + hex_text(b.drop_first())
    }
}

proof fn lemma_hex_char(d: int)
    requires
        0 <= d < 16,
    ensures
        is_hex_digit(hex_char(d)),
        hex_digit_value(hex_char(d)) == d,
        !is_white_space(hex_char(d)),
        hex_char(d) != '+',
{
}

proof fn lemma_hex_pair(x: u8)
    ensures
        radix16_u8(seq![hex_char((x / 16) as int), hex_char((x % 16) as int)]) == Some(x),
{
    let d = seq![hex_char((x / 16) as int), hex_char((x % 16) as int)];
    lemma_hex_char((x / 16) as int);
    lemma_hex_char((x % 16) as int);
    assert(d.drop_last() =~= seq![hex_char((x / 16) as int)]);
    assert(seq![hex_char((x / 16) as int)].drop_last() =~= Seq::<char>::empty());
    let c0 = hex_char((x / 16) as int);
    let c1 = hex_char((x % 16) as int);
    assert(hex_digits_value(Seq::<char>::empty()) == 0);
    assert(hex_digits_value(seq![c0]) == hex_digits_value(seq![c0].drop_last()) * 16 + hex_digit_value(c0));
    assert(hex_digits_value(seq![c0]) == hex_digit_value(c0));
    assert(d.last() == c1);
    assert(hex_digits_value(d) == hex_digits_value(d.drop_last()) * 16 + hex_digit_value(c1));
    assert(hex_digits_value(d) == (x / 16) * 16 + x % 16);
}

proof fn lemma_hex_text_pairs(b: Seq<u8>)
    ensures
        hex_pairs(hex_text(b)) == Ok::<Seq<u8>, Seq<char>>(b),
        hex_text(b).len() == 2 * b.len(),
        forall|i: int| 0 <= i < hex_text(b).len() ==> !is_white_space(#[trigger] hex_text(b)[i]),
    decreases b.len(),
{
    if b.len() > 0 {
        let rest = b.drop_first();
        lemma_hex_text_pairs(rest);
        let s = hex_text(b);
        let pair = seq![hex_char((b[0] / 16) as int), hex_char((b[0] % 16) as int)];
        lemma_hex_pair(b[0]);
        lemma_hex_char((b[0] / 16) as int);
        lemma_hex_char((b[0] % 16) as int);
        assert(s.take(2) =~= pair);
        assert(s.skip(2) =~= hex_text(rest));
        assert(seq![b[0]] + rest =~= b);
        assert forall|i: int| 0 <= i < s.len() implies !is_white_space(#[trigger] s[i]) by {
            if i >= 2 {
                assert(s[i] == hex_text(rest)[i - 2]);
            }
        }
    } else {
        assert(b =~= Seq::<u8>::empty());
    }
}

proof fn lemma_strip_nothing(s: Seq<char>)
    requires
        forall|i: int| 0 <= i < s.len() ==> !is_white_space(#[trigger] s[i]),
    ensures
        strip_white(s) == s,
    decreases s.len(),
{
    reveal(Seq::filter);
    if s.len() > 0 {
        lemma_strip_nothing(s.drop_last());
        assert(!is_white_space(s[s.len() - 1]));
        assert(s.drop_last().push(s.last()) =~= s);
    } else {
        assert(s.filter(|c: char| !is_white_space(c)) =~= s);
    }
}

/// Bytes written in hexadecimal, as `HE_SEND_RAW` takes them with
/// `encoding: "hex"`, read back as the same bytes.
pub proof fn hex_text_reads_back(b: Seq<u8>)
    ensures
        hex_bytes(hex_text(b)) == Ok::<Seq<u8>, Seq<char>>(b),
{
    lemma_hex_text_pairs(b);
    lemma_strip_nothing(hex_text(b));
}

proof fn lemma_trim_start_clean(s: Seq<char>)
    ensures
        trim_start(s).len() == 0 || !is_white_space(trim_start(s)[0]),
    decreases s.len(),
{
    if s.len() > 0 && is_white_space(s[0]) {
        lemma_trim_start_clean(s.drop_first());
    }
}

proof fn lemma_trim_end_prefix(s: Seq<char>)
    ensures
        trim_end(s).len() <= s.len(),
        trim_end(s) == s.take(trim_end(s).len() as int),
        trim_end(s).len() == 0 || !is_white_space(trim_end(s).last()),
    decreases s.len(),
{
    if s.len() > 0 && is_white_space(s.last()) {
        lemma_trim_end_prefix(s.drop_last());
        let t = trim_end(s.drop_last());
        assert(s.drop_last().take(t.len() as int) =~= s.take(t.len() as int));
    } else {
        assert(s.take(s.len() as int) =~= s);
    }
}

/// The text of an HTML fragment has no white space at either end, so
/// trimming it again changes nothing.
pub proof fn html_text_is_trimmed(html: Seq<char>)
    ensures
        trim(html_text(html)) == html_text(html),
        html_text(html).len() == 0 || (!is_white_space(html_text(html)[0]) && !is_white_space(
            html_text(html).last(),
        )),
{
    let x = join_lines(trim_each(split_lines(scan(html).out)));
    let a = trim_start(x);
    lemma_trim_start_clean(x);
    lemma_trim_end_prefix(a);
    let t = trim_end(a);
    assert(t.len() == 0 || t[0] == a[0]);
    assert(trim_start(t) == t);
    lemma_trim_end_prefix(t);
    assert(trim_end(t) == t);
}

/// A style applies to the most recently added item only: setting it
/// changes no other item of the task, and adds or removes none.
pub proof fn a_style_touches_only_the_last_item(p: JsonView, m: ManagerView)
    requires
        manager_wf(m),
        set_style_spec(p, m).1 is Ok,
    ensures
        ({
            let t = target_of(m, tid_of(p))->0;
            let t2 = target_of(set_style_spec(p, m).0, tid_of(p))->0;
            &&& target_of(set_style_spec(p, m).0, tid_of(p)) is Some
            &&& t2.items.len() == t.items.len()
            &&& forall|j: int| 0 <= j < t.items.len() - 1 ==> t2.items[j] == t.items[j]
            &&& t2.task_id == t.task_id
            &&& t2.page == t.page
            &&& t2.options == t.options
        }),
{
    let tid = tid_of(p);
    let t = target_of(m, tid)->0;
    if let Some(id) = tid {
        lemma_task_index_in_range(m.tasks, id);
        let t2 = with_last_style(t, style_with(style_of(t.items.last())->0, get_str(p, "name"@)->0, value_or_null(p, "value"@)));
        let n = with_target(m, tid, t2);
        crate::task::lemma_task_index_same_ids(m.tasks, n.tasks, id);
    }
}

/// The copy count a command sets is at least one, for every count below
/// 2³² (larger counts keep only their low 32 bits).
pub proof fn copies_are_at_least_one(p: JsonView)
    requires
        get_u64(p, "count"@) matches Some(c) ==> c < 0x1_0000_0000,
    ensures
        copies_param(p) >= 1,
{
}

/// Whether `s` is plain text: no white space, and none of the characters
/// that open or close a tag or an entity.
pub open spec fn plain_word(s: Seq<char>) -> bool {
    forall|i: int| 0 <= i < s.len() ==> !is_white_space(#[trigger] s[i]) && s[i] != '<' && s[i] != '>' && s[i] != '&'
}

/// The scanner run from state `st` over `s`.
pub open spec fn run_scan(st: Scan, s: Seq<char>) -> Scan
    decreases s.len(),
{
    if s.len() == 0 {
        st
    } else {
        scan_step(run_scan(st, s.drop_last()), s.last())
    }
}

proof fn lemma_scan_is_run(s: Seq<char>)
    ensures
        scan(s) == run_scan(scan_start(), s),
    decreases s.len(),
{
    if s.len() > 0 {
        lemma_scan_is_run(s.drop_last());
    }
}

proof fn lemma_run_concat(st: Scan, s: Seq<char>, t: Seq<char>)
    ensures
        run_scan(st, s + t) == run_scan(run_scan(st, s), t),
    decreases t.len(),
{
    if t.len() == 0 {
        assert(s + t =~= s);
    } else {
        assert((s + t).drop_last() =~= s + t.drop_last());
        assert((s + t).last() == t.last());
        lemma_run_concat(st, s, t.drop_last());
    }
}

proof fn lemma_run_plain(st: Scan, s: Seq<char>)
    requires
        !st.in_entity,
        !st.in_tag,
        plain_word(s),
    ensures
        run_scan(st, s) == (Scan { out: st.out + s, ..st }),
    decreases s.len(),
{
    if s.len() == 0 {
        assert(st.out + s =~= st.out);
    } else {
        let p = s.drop_last();
        assert(plain_word(p)) by {
            assert forall|i: int| 0 <= i < p.len() implies !is_white_space(#[trigger] p[i]) && p[i] != '<' && p[i]
                != '>' && p[i] != '&' by {
                assert(p[i] == s[i]);
            }
        }
        lemma_run_plain(st, p);
        let c = s.last();
        assert(c == s[s.len() - 1]);
        assert((st.out + p).push(c) =~= st.out + s);
    }
}

proof fn lemma_split_none(a: Seq<char>)
    requires
        forall|i: int| 0 <= i < a.len() ==> a[i] != '\n',
    ensures
        split_lines(a) == seq![a],
    decreases a.len(),
{
    if a.len() > 0 {
        lemma_split_none(a.drop_last());
        assert(a.drop_last().push(a.last()) =~= a);
    } else {
        assert(a =~= Seq::<char>::empty());
    }
}

proof fn lemma_split_tail(p: Seq<char>, b: Seq<char>)
    requires
        forall|i: int| 0 <= i < b.len() ==> b[i] != '\n',
    ensures
        split_lines(p + seq!['\n'] + b) == split_lines(p).push(b),
    decreases b.len(),
{
    let x = p + seq!['\n'] + b;
    if b.len() == 0 {
        assert(x =~= p.push('\n'));
        assert(x.drop_last() =~= p);
        assert(b =~= Seq::<char>::empty());
    } else {
        lemma_split_tail(p, b.drop_last());
        assert(x.drop_last() =~= p + seq!['\n'] + b.drop_last());
        assert(x.last() == b.last());
        assert(b.drop_last().push(b.last()) =~= b);
    }
}

/// A `<br>` tag breaks the line: between two words of plain text (no white
/// space, no tag or entity characters), the plain text holds the first
/// word, a line break, and the second word.
pub proof fn a_br_tag_breaks_the_line(a: Seq<char>, b: Seq<char>)
    requires
        a.len() > 0,
        b.len() > 0,
        plain_word(a),
        plain_word(b),
    ensures
        html_text(a + "<br>"@ + b) == a + "\n"@ + b,
{
    reveal_strlit("<br>");
    reveal_strlit("\n");
    reveal_strlit("br");
    let br = "<br>"@;
    let s0 = scan_start();
    lemma_run_plain(s0, a);
    let s1 = run_scan(s0, a);
    assert(s0.out + a =~= a);
    // the tag
    assert(br =~= seq!['<', 'b', 'r', '>']);
    assert(seq!['<', 'b', 'r', '>'].drop_last() =~= seq!['<', 'b', 'r']);
    assert(seq!['<', 'b', 'r'].drop_last() =~= seq!['<', 'b']);
    assert(seq!['<', 'b'].drop_last() =~= seq!['<']);
    assert(seq!['<'].drop_last() =~= Seq::<char>::empty());
    let t1 = scan_step(s1, '<');
    let t2 = scan_step(t1, 'b');
    let t3 = scan_step(t2, 'r');
    assert(t2.tag =~= seq!['b']);
    assert(t3.tag =~= seq!['b', 'r']);
    assert(ascii_lower_seq(seq!['b', 'r']) =~= "br"@);
    assert(run_scan(s1, Seq::<char>::empty()) == s1);
    assert(run_scan(s1, seq!['<']) == t1);
    assert(run_scan(s1, seq!['<', 'b']) == t2);
    assert(run_scan(s1, seq!['<', 'b', 'r']) == t3);
    assert(run_scan(s1, seq!['<', 'b', 'r', '>']) == scan_step(t3, '>'));
    let s2 = run_scan(s1, br);
    assert(s2 == scan_step(t3, '>'));
    assert(s2.out == a + "\n"@);
    lemma_run_plain(s2, b);
    lemma_run_concat(s0, a, br);
    lemma_run_concat(s0, a + br, b);
    lemma_scan_is_run(a + br + b);
    let out = scan(a + br + b).out;
    assert(out == a + "\n"@ + b);
    assert(out =~= a + seq!['\n'] + b);
    assert forall|i: int| 0 <= i < a.len() implies a[i] != '\n' by {
        assert(!is_white_space(a[i]));
    }
    assert forall|i: int| 0 <= i < b.len() implies b[i] != '\n' by {
        assert(!is_white_space(b[i]));
    }
    lemma_split_none(a);
    lemma_split_tail(a, b);
    let l = seq![a, b];
    assert(split_lines(out) =~= l);
    assert(!is_white_space(a[0]) && !is_white_space(a.last()));
    assert(!is_white_space(b[0]) && !is_white_space(b.last()));
    assert(trim_start(a) == a);
    assert(trim_end(a) == a);
    assert(trim_start(b) == b);
    assert(trim_end(b) == b);
    assert(trim_each(l) =~= l);
    assert(l.drop_last() =~= seq![a]);
    assert(join_lines(seq![a]) == a);
    assert(join_lines(l) =~= a + seq!['\n'] + b);
    let x = a + seq!['\n'] + b;
    assert(x[0] == a[0]);
    assert(x.last() == b.last());
    assert(trim_start(x) == x);
    assert(trim_end(x) == x);
}

/// Whether two styles agree on every field but the one called `name`.
pub open spec fn same_but_field(a: StyleView, b: StyleView, name: Seq<char>) -> bool {
    &&& (name == "FontName"@ || a.font_name == b.font_name)
    &&& (name == "FontSize"@ || a.font_size == b.font_size)
    &&& (name == "FontColor"@ || a.font_color == b.font_color)
    &&& (name == "Bold"@ || a.bold == b.bold)
    &&& (name == "Italic"@ || a.italic == b.italic)
    &&& (name == "Underline"@ || a.underline == b.underline)
    &&& (name == "Alignment"@ || a.alignment == b.alignment)
    &&& (name == "Angle"@ || a.angle == b.angle)
    &&& (name == "ItemType"@ || a.item_type == b.item_type)
    &&& (name == "AsImage"@ || a.as_image == b.as_image)
    &&& (name == "KeepColor"@ || a.keep_color == b.keep_color)
    &&& (name == "BackColor"@ || a.back_color == b.back_color)
    &&& (name == "LineStyle"@ || a.line_style == b.line_style)
    &&& (name == "LineWidth"@ || a.line_width == b.line_width)
}

/// Setting a style by a known name changes exactly the field of that name:
/// every other field keeps its value. The on/off styles take the flag the
/// value reads as, and `Alignment` takes the alignment its number selects.
pub proof fn a_style_name_sets_only_its_own_field(st: StyleView, name: Seq<char>, v: JsonView)
    requires
        known_style_name(name),
    ensures
        same_but_field(style_with(st, name, v), st, name),
        style_with(st, "Bold"@, v).bold == Some(flag_of(v)),
        style_with(st, "Italic"@, v).italic == Some(flag_of(v)),
        style_with(st, "Underline"@, v).underline == Some(flag_of(v)),
        style_with(st, "AsImage"@, v).as_image == Some(flag_of(v)),
        style_with(st, "KeepColor"@, v).keep_color == Some(flag_of(v)),
        jv_as_i64(v) matches Some(n) ==> style_with(st, "Alignment"@, v).alignment == Some(alignment_of(n as i32)),
{
    reveal_strlit("FontName");
    reveal_strlit("FontSize");
    reveal_strlit("FontColor");
    reveal_strlit("Bold");
    reveal_strlit("Italic");
    reveal_strlit("Underline");
    reveal_strlit("Alignment");
    reveal_strlit("Angle");
    reveal_strlit("ItemType");
    reveal_strlit("AsImage");
    reveal_strlit("KeepColor");
    reveal_strlit("BackColor");
    reveal_strlit("LineStyle");
    reveal_strlit("LineWidth");
    assert("Bold"@.len() != "FontName"@.len());
    assert("Bold"@.len() != "FontSize"@.len());
    assert("Bold"@.len() != "FontColor"@.len());
    assert("Italic"@.len() != "FontName"@.len());
    assert("Italic"@.len() != "FontSize"@.len());
    assert("Italic"@.len() != "FontColor"@.len());
    assert("Italic"@.len() != "Bold"@.len());
    assert("Underline"@.len() != "FontName"@.len());
    assert("Underline"@.len() != "FontSize"@.len());
    assert("Underline"@[0] != "FontColor"@[0]);
    assert("Underline"@.len() != "Bold"@.len());
    assert("Underline"@.len() != "Italic"@.len());
    assert("AsImage"@.len() != "FontName"@.len());
    assert("AsImage"@.len() != "FontSize"@.len());
    assert("AsImage"@.len() != "FontColor"@.len());
    assert("AsImage"@.len() != "Bold"@.len());
    assert("AsImage"@.len() != "Italic"@.len());
    assert("AsImage"@.len() != "Underline"@.len());
    assert("AsImage"@.len() != "Alignment"@.len());
    assert("AsImage"@.len() != "Angle"@.len());
    assert("AsImage"@.len() != "ItemType"@.len());
    assert("KeepColor"@.len() != "FontName"@.len());
    assert("KeepColor"@.len() != "FontSize"@.len());
    assert("KeepColor"@[0] != "FontColor"@[0]);
    assert("KeepColor"@.len() != "Bold"@.len());
    assert("KeepColor"@.len() != "Italic"@.len());
    assert("KeepColor"@[0] != "Underline"@[0]);
    assert("KeepColor"@[0] != "Alignment"@[0]);
    assert("KeepColor"@.len() != "Angle"@.len());
    assert("KeepColor"@.len() != "ItemType"@.len());
    assert("KeepColor"@.len() != "AsImage"@.len());
    assert("Alignment"@.len() != "FontName"@.len());
    assert("Alignment"@.len() != "FontSize"@.len());
    assert("Alignment"@[0] != "FontColor"@[0]);
    assert("Alignment"@.len() != "Bold"@.len());
    assert("Alignment"@.len() != "Italic"@.len());
    assert("Alignment"@[0] != "Underline"@[0]);
}

/// Text is drawn with the alignment its style sets: centred exactly when
/// the style says centre, right-aligned exactly when it says right, and
/// left-aligned when it says left or nothing. Through `HE_SET_STYLE`, the
/// number 2 centres and 3 right-aligns.
pub proof fn text_is_drawn_with_its_style_alignment(st: StyleView, n: i32)
    ensures
        align_of(st) == TextAlign::Center <==> st.alignment == Some(Alignment::Center),
        align_of(st) == TextAlign::Right <==> st.alignment == Some(Alignment::Right),
        align_of(st) == TextAlign::Left <==> (st.alignment is None || st.alignment == Some(Alignment::Left)),
        align_of(StyleView { alignment: Some(alignment_of(n)), ..st }) == (if n == 2 {
            TextAlign::Center
        } else if n == 3 {
            TextAlign::Right
        } else {
            TextAlign::Left
        }),
{
}

/// Each barcode type name of the protocol selects its type; `QRCode`, the
/// default, is also read in lower case. A barcode added with no type, in a
/// box the command accepts, is a QR code.
pub proof fn barcode_names_select_their_types(p: JsonView)
    ensures
        barcode_type_of("QRCode"@) == Some(BarcodeType::QRCode),
        barcode_type_of("qrcode"@) == Some(BarcodeType::QRCode),
        barcode_type_of("Code128"@) == Some(BarcodeType::Code128),
        barcode_type_of("Code39"@) == Some(BarcodeType::Code39),
        barcode_type_of("EAN13"@) == Some(BarcodeType::EAN13),
        barcode_type_of("EAN8"@) == Some(BarcodeType::EAN8),
        barcode_type_of("UPC-A"@) == Some(BarcodeType::UpcA),
        barcode_type_of("UPC-E"@) == Some(BarcodeType::UpcE),
        barcode_type_of("PDF417"@) == Some(BarcodeType::PDF417),
        barcode_type_of("DataMatrix"@) == Some(BarcodeType::DataMatrix),
        (rect_param(p) is Ok && get_either(p, "btype"@, "type"@) is None) ==> (barcode_item(p) matches Ok(
            ItemView::Barcode { btype, .. },
        ) && btype == BarcodeType::QRCode),
{
    reveal_strlit("QRCode");
    reveal_strlit("qrcode");
    reveal_strlit("Code128");
    reveal_strlit("Code39");
    reveal_strlit("EAN13");
    reveal_strlit("EAN8");
    reveal_strlit("UPC-A");
    reveal_strlit("UPC-E");
    reveal_strlit("PDF417");
    reveal_strlit("DataMatrix");
    assert("qrcode"@[0] != "QRCode"@[0]);
    assert("Code128"@.len() != "QRCode"@.len());
    assert("Code128"@.len() != "qrcode"@.len());
    assert("Code39"@[0] != "QRCode"@[0]);
    assert("Code39"@[0] != "qrcode"@[0]);
    assert("Code39"@.len() != "Code128"@.len());
    assert("EAN13"@.len() != "QRCode"@.len());
    assert("EAN13"@.len() != "qrcode"@.len());
    assert("EAN13"@.len() != "Code128"@.len());
    assert("EAN13"@.len() != "Code39"@.len());
    assert("EAN8"@.len() != "QRCode"@.len());
    assert("EAN8"@.len() != "qrcode"@.len());
    assert("EAN8"@.len() != "Code128"@.len());
    assert("EAN8"@.len() != "Code39"@.len());
    assert("EAN8"@.len() != "EAN13"@.len());
    assert("UPC-A"@.len() != "QRCode"@.len());
    assert("UPC-A"@.len() != "qrcode"@.len());
    assert("UPC-A"@.len() != "Code128"@.len());
    assert("UPC-A"@.len() != "Code39"@.len());
    assert("UPC-A"@[0] != "EAN13"@[0]);
    assert("UPC-A"@.len() != "EAN8"@.len());
    assert("UPC-E"@.len() != "QRCode"@.len());
    assert("UPC-E"@.len() != "qrcode"@.len());
    assert("UPC-E"@.len() != "Code128"@.len());
    assert("UPC-E"@.len() != "Code39"@.len());
    assert("UPC-E"@[0] != "EAN13"@[0]);
    assert("UPC-E"@.len() != "EAN8"@.len());
    assert("UPC-E"@[4] != "UPC-A"@[4]);
    assert("PDF417"@[0] != "QRCode"@[0]);
    assert("PDF417"@[0] != "qrcode"@[0]);
    assert("PDF417"@.len() != "Code128"@.len());
    assert("PDF417"@[0] != "Code39"@[0]);
    assert("PDF417"@.len() != "EAN13"@.len());
    assert("PDF417"@.len() != "EAN8"@.len());
    assert("PDF417"@.len() != "UPC-A"@.len());
    assert("PDF417"@.len() != "UPC-E"@.len());
    assert("DataMatrix"@.len() != "QRCode"@.len());
    assert("DataMatrix"@.len() != "qrcode"@.len());
    assert("DataMatrix"@.len() != "Code128"@.len());
    assert("DataMatrix"@.len() != "Code39"@.len());
    assert("DataMatrix"@.len() != "EAN13"@.len());
    assert("DataMatrix"@.len() != "EAN8"@.len());
    assert("DataMatrix"@.len() != "UPC-A"@.len());
    assert("DataMatrix"@.len() != "UPC-E"@.len());
    assert("DataMatrix"@.len() != "PDF417"@.len());
}

/// `HE_GET_INFO` with key `runningJobs` answers the number of jobs taken
/// from the queue and not yet finished, whatever is waiting; with key
/// `queueLength` it answers the number of waiting jobs, whatever is running.
pub proof fn queue_counts_are_reported_by_their_keys(
    p: JsonView,
    m: ManagerView,
    q: QueueView,
    waiting: Seq<JobView>,
    running: Seq<Seq<char>>,
)
    ensures
        get_str(p, "key"@) == Some("runningJobs"@) ==> get_info_step(p, m, q) == StepView::Reply(
            Ok(
                JsonView::Object(
                    seq![
                        ("key"@, JsonView::Str("runningJobs"@)),
                        ("value"@, JsonView::Number(Number::PosInt(q.running.len() as u64))),
                    ],
                ),
            ),
        ) && get_info_step(p, m, q) == get_info_step(p, m, QueueView { waiting, ..q }),
        get_str(p, "key"@) == Some("queueLength"@) ==> get_info_step(p, m, q) == StepView::Reply(
            Ok(
                JsonView::Object(
                    seq![
                        ("key"@, JsonView::Str("queueLength"@)),
                        ("value"@, JsonView::Number(Number::PosInt(q.waiting.len() as u64))),
                    ],
                ),
            ),
        ) && get_info_step(p, m, q) == get_info_step(p, m, QueueView { running, ..q }),
{
    reveal_strlit("printerCount");
    reveal_strlit("version");
    reveal_strlit("serverIp");
    reveal_strlit("clientIp");
    reveal_strlit("status");
    reveal_strlit("taskId");
    reveal_strlit("runningJobs");
    reveal_strlit("queueLength");
    assert("runningJobs"@.len() != "printerCount"@.len());
    assert("runningJobs"@.len() != "version"@.len());
    assert("runningJobs"@.len() != "serverIp"@.len());
    assert("runningJobs"@.len() != "clientIp"@.len());
    assert("runningJobs"@.len() != "status"@.len());
    assert("runningJobs"@.len() != "taskId"@.len());
    assert("queueLength"@.len() != "printerCount"@.len());
    assert("queueLength"@.len() != "version"@.len());
    assert("queueLength"@.len() != "serverIp"@.len());
    assert("queueLength"@.len() != "clientIp"@.len());
    assert("queueLength"@.len() != "status"@.len());
    assert("queueLength"@.len() != "taskId"@.len());
    assert("queueLength"@[0] != "runningJobs"@[0]);
}

} // verus!
