//! Print tasks and the task manager of a connection.

use vstd::prelude::*;
use crate::item::{ItemView, PrintItem};
use crate::json::{JsonValue, JsonView, Number, view_members};
use crate::text::{chars_of, decimal, padded_decimal, string_of, str_equal, zero_pad};
use crate::types::{Orient};
use crate::error::{HeError, is_message_of};
use vstd::string::StringExecFns;

verus! {

/// Paper settings. Sizes are in mm and keep the JSON number they were given
/// (a roll has height 0); a system paper name takes precedence over sizes.
#[derive(Debug)]
pub struct PageConfig {
    pub orient: Orient,
    pub width_mm: Number,
    pub height_mm: Number,
    pub name: Option<String>,
}

/// The mathematical form of the paper settings.
pub struct PageView {
    pub orient: Orient,
    pub width_mm: Number,
    pub height_mm: Number,
    pub name: Option<Seq<char>>,
}

impl View for PageConfig {
    type V = PageView;

    open spec fn view(&self) -> PageView {
        PageView {
            orient: self.orient,
            width_mm: self.width_mm,
            height_mm: self.height_mm,
            name: match self.name {
                Some(n) => Some(n@),
                None => None,
            },
        }
    }
}

/// 210.0 as a binary64 bit pattern.
pub const A4_WIDTH_BITS: u64 = 0x406a_4000_0000_0000;

/// 297.0 as a binary64 bit pattern.
pub const A4_HEIGHT_BITS: u64 = 0x4072_9000_0000_0000;

/// The default paper: portrait A4, 210 by 297 mm.
pub open spec fn default_page() -> PageView {
    PageView {
        orient: Orient::Portrait,
        width_mm: Number::Float(A4_WIDTH_BITS),
        height_mm: Number::Float(A4_HEIGHT_BITS),
        name: Some("A4"@),
    }
}

impl Default for PageConfig {
    fn default() -> (r: PageConfig)
        ensures
            r@ == default_page(),
    {
        PageConfig {
            orient: Orient::Portrait,
            width_mm: Number::Float(A4_WIDTH_BITS),
            height_mm: Number::Float(A4_HEIGHT_BITS),
            name: Some("A4".to_owned()),
        }
    }
}

/// The life cycle of a task.
#[derive(Debug, Clone, Copy, PartialEq, Eq, Structural)]
pub enum TaskStatus {
    Building,
    Ready,
    Printing,
    Done,
    Error,
}

/// The lower-case name of a status, as it is written in JSON.
pub open spec fn status_name(s: TaskStatus) -> Seq<char> {
    match s {
        TaskStatus::Building => "building"@,
        TaskStatus::Ready => "ready"@,
        TaskStatus::Printing => "printing"@,
        TaskStatus::Done => "done"@,
        TaskStatus::Error => "error"@,
    }
}

impl TaskStatus {
    /// The lower-case name of the status.
    pub fn name(&self) -> (r: &'static str)
        ensures
            r@ == status_name(*self),
    {
        match self {
            TaskStatus::Building => "building",
            TaskStatus::Ready => "ready",
            TaskStatus::Printing => "printing",
            TaskStatus::Done => "done",
            TaskStatus::Error => "error",
        }
    }
}

/// The outcome of printing a task.
#[derive(Debug)]
pub struct TaskResult {
    pub task_id: String,
    pub success: bool,
    pub error: Option<String>,
    pub pages: Option<u32>,
}

impl TaskResult {
    /// A successful outcome with the number of pages printed.
    pub fn success(task_id: String, pages: u32) -> (r: TaskResult)
        ensures
            r.task_id@ == task_id@,
            r.success,
            r.error is None,
            r.pages == Some(pages),
    {
        TaskResult { task_id, success: true, error: None, pages: Some(pages) }
    }

    /// The outcome of an attempt to print `task_id`: the result itself when
    /// printing went through, else a failure carrying the error's text.
    pub fn from_attempt(task_id: String, r: Result<TaskResult, HeError>) -> (o: TaskResult)
        ensures
            match r {
                Ok(t) => o == t,
                Err(e) => o.task_id@ == task_id@ && !o.success && o.pages is None
                    && (o.error matches Some(s) && is_message_of(e, s@)),
            },
    {
        match r {
            Ok(t) => t,
            Err(e) => TaskResult::failure(task_id, e.to_message()),
        }
    }

    /// A failed outcome with its message.
    pub fn failure(task_id: String, err: String) -> (r: TaskResult)
        ensures
            r.task_id@ == task_id@,
            !r.success,
            r.error matches Some(e) && e@ == err@,
            r.pages is None,
    {
        TaskResult { task_id, success: false, error: Some(err), pages: None }
    }
}

/// Whether `s` has the shape of a hyphenated version-4 UUID in lower case.
pub open spec fn is_uuid_v4_text(s: Seq<char>) -> bool {
    &&& s.len() == 36
    &&& forall|i: int|
        0 <= i < 36 ==> if i == 8 || i == 13 || i == 18 || i == 23 {
            s[i] == '-'
        } else {
            ('0' <= s[i] && s[i] <= '9') || ('a' <= s[i] && s[i] <= 'f')
        }
    &&& s[14] == '4'
    &&& (s[19] == '8' || s[19] == '9' || s[19] == 'a' || s[19] == 'b')
}

/// `uuid::Uuid::new_v4().to_string()`: a fresh random identifier. The source
/// (`uuid` 1.x, `fmt.rs` and `v4.rs`) writes 32 lower-case hex digits in
/// groups 8-4-4-4-12 with the version digit 4 and the variant bits `10`;
/// the digits themselves are random and nothing else is claimed of them.
#[verifier::external_body]
fn new_uuid_text() -> (s: String)
    ensures
        is_uuid_v4_text(s@),
{
    uuid::Uuid::new_v4().to_string()
}

/// A print task.
#[derive(Debug)]
pub struct PrintTask {
    pub task_id: String,
    /// A short id (`T_001`, `T_002`, ...) for tasks opened by id.
    pub short_id: Option<String>,
    pub name: String,
    pub items: Vec<PrintItem>,
    pub page: PageConfig,
    pub printer_name: Option<String>,
    pub copies: u32,
    /// Options by key; a key occurs at most once.
    pub options: Vec<(String, JsonValue)>,
    pub status: TaskStatus,
}

/// The mathematical form of a task.
pub struct TaskView {
    pub task_id: Seq<char>,
    pub short_id: Option<Seq<char>>,
    pub name: Seq<char>,
    pub items: Seq<ItemView>,
    pub page: PageView,
    pub printer_name: Option<Seq<char>>,
    pub copies: u32,
    pub options: Seq<(Seq<char>, JsonView)>,
    pub status: TaskStatus,
}

/// The view of an optional string.
pub open spec fn opt_view(s: Option<String>) -> Option<Seq<char>> {
    match s {
        Some(t) => Some(t@),
        None => None,
    }
}

/// The views of items.
pub open spec fn items_view(s: Seq<PrintItem>) -> Seq<ItemView> {
    s.map_values(|i: PrintItem| i@)
}

impl View for PrintTask {
    type V = TaskView;

    open spec fn view(&self) -> TaskView {
        TaskView {
            task_id: self.task_id@,
            short_id: opt_view(self.short_id),
            name: self.name@,
            items: items_view(self.items@),
            page: self.page@,
            printer_name: opt_view(self.printer_name),
            copies: self.copies,
            options: view_members(self.options@),
            status: self.status,
        }
    }
}

/// Whether no key occurs twice among the options.
pub open spec fn keys_distinct(o: Seq<(Seq<char>, JsonView)>) -> bool {
    forall|i: int, j: int| 0 <= i < o.len() && 0 <= j < o.len() && i != j ==> o[i].0 != o[j].0
}

/// Whether a task is well formed: its option keys are distinct.
pub open spec fn task_wf(t: TaskView) -> bool {
    keys_distinct(t.options)
}

/// A fresh task with this name and id.
pub open spec fn fresh_task(id: Seq<char>, name: Seq<char>) -> TaskView {
    TaskView {
        task_id: id,
        short_id: None,
        name,
        items: Seq::empty(),
        page: default_page(),
        printer_name: None,
        copies: 1,
        options: Seq::empty(),
        status: TaskStatus::Building,
    }
}

/// Whether nothing but page breaks is in the task.
pub open spec fn only_page_breaks(items: Seq<ItemView>) -> bool {
    forall|i: int| 0 <= i < items.len() ==> items[i] is PageBreak
}

/// The options after setting `key` to `v`: an existing entry is replaced in
/// place, a new key is added at the end.
pub open spec fn options_insert(o: Seq<(Seq<char>, JsonView)>, key: Seq<char>, v: JsonView) -> Seq<
    (Seq<char>, JsonView),
> {
    if exists|i: int| 0 <= i < o.len() && o[i].0 == key {
        let i = choose|i: int| 0 <= i < o.len() && o[i].0 == key;
        o.update(i, (key, v))
    } else {
        o.push((key, v))
    }
}

impl PrintTask {
    /// A copy of the task, for a printing thread while the original stays
    /// with the queue.
    pub fn duplicate(&self) -> (r: PrintTask)
        ensures
            r@ == self@,
    {
        let mut items: Vec<PrintItem> = Vec::new();
        for i in 0..self.items.len()
            invariant
                items_view(items@) == items_view(self.items@.take(i as int)),
        {
            let x = self.items[i].duplicate();
            let ghost before = items@;
            items.push(x);
            assert(items@.drop_last() =~= before);
            assert(items_view(items@) =~= items_view(before).push(x@));
            assert(self.items@.take(i + 1) =~= self.items@.take(i as int).push(self.items@[i as int]));
            assert(items_view(self.items@.take(i + 1)) =~= items_view(self.items@.take(i as int)).push(self.items@[i as int]@));
        }
        assert(self.items@.take(self.items.len() as int) =~= self.items@);
        let mut options: Vec<(String, JsonValue)> = Vec::new();
        for i in 0..self.options.len()
            invariant
                view_members(options@) == view_members(self.options@.take(i as int)),
        {
            let k = self.options[i].0.clone();
            let v = self.options[i].1.duplicate();
            let ghost before = options@;
            options.push((k, v));
            assert(options@.drop_last() =~= before);
            assert(self.options@.take(i + 1).drop_last() =~= self.options@.take(i as int));
        }
        assert(self.options@.take(self.options.len() as int) =~= self.options@);
        PrintTask {
            task_id: self.task_id.clone(),
            short_id: match &self.short_id {
                Some(s) => Some(s.clone()),
                None => None,
            },
            name: self.name.clone(),
            items,
            page: PageConfig {
                orient: self.page.orient,
                width_mm: self.page.width_mm,
                height_mm: self.page.height_mm,
                name: match &self.page.name {
                    Some(n) => Some(n.clone()),
                    None => None,
                },
            },
            printer_name: match &self.printer_name {
                Some(n) => Some(n.clone()),
                None => None,
            },
            copies: self.copies,
            options,
            status: self.status,
        }
    }

    /// A new, empty task with a fresh random id: default paper, no printer,
    /// one copy, no options, still being built.
    pub fn new(name: String) -> (t: PrintTask)
        ensures
            t@ == fresh_task(t@.task_id, name@),
            is_uuid_v4_text(t@.task_id),
            task_wf(t@),
    {
        let t = PrintTask {
            task_id: new_uuid_text(),
            short_id: None,
            name,
            items: Vec::new(),
            page: PageConfig::default(),
            printer_name: None,
            copies: 1,
            options: Vec::new(),
            status: TaskStatus::Building,
        };
        assert(items_view(t.items@) =~= Seq::<ItemView>::empty());
        t
    }

    /// Appends an item.
    pub fn push_item(&mut self, item: PrintItem)
        ensures
            final(self)@ == (TaskView { items: old(self)@.items.push(item@), ..old(self)@ }),
    {
        self.items.push(item);
        assert(items_view(self.items@) =~= items_view(old(self).items@).push(item@));
    }

    /// The last item, to change it in place.
    pub fn last_item_mut(&mut self) -> (r: Option<&mut PrintItem>)
        ensures
            old(self)@.items.len() == 0 ==> r is None && final(self)@ == old(self)@,
            old(self)@.items.len() > 0 ==> (r matches Some(it) && it@ == old(self)@.items.last()
                && final(self)@ == (TaskView {
                items: old(self)@.items.update(old(self)@.items.len() - 1, final(it)@),
                ..old(self)@
            })),
    {
        let r = self.items.last_mut();
        proof {
            if old(self).items@.len() > 0 {
                let it = r.unwrap();
                assert(items_view(final(self).items@) =~= items_view(old(self).items@).update(
                    old(self)@.items.len() - 1,
                    final(it)@,
                ));
            } else {
                assert(items_view(final(self).items@) =~= items_view(old(self).items@));
            }
        }
        r
    }

    /// The index of the option `key`.
    fn option_index(&self, key: &str) -> (r: Option<usize>)
        ensures
            match r {
                Some(i) => i < self@.options.len() && self@.options[i as int].0 == key@,
                None => forall|j: int| 0 <= j < self@.options.len() ==> self@.options[j].0 != key@,
            },
    {
        proof {
            crate::json::lemma_view_members_index(self.options@);
        }
        for i in 0..self.options.len()
            invariant
                forall|j: int| 0 <= j < i ==> self@.options[j].0 != key@,
        {
            proof {
                crate::json::lemma_view_members_index(self.options@);
            }
            if str_equal(self.options[i].0.as_str(), key) {
                return Some(i);
            }
        }
        None
    }

    /// Sets the option `key` to `value`: an existing entry for the key is
    /// replaced in place, a new key is added at the end.
    pub fn set_option(&mut self, key: String, value: JsonValue)
        requires
            task_wf(old(self)@),
        ensures
            final(self)@ == (TaskView {
                options: options_insert(old(self)@.options, key@, value@),
                ..old(self)@
            }),
            task_wf(final(self)@),
    {
        let ghost o = old(self)@.options;
        let ghost entry = (key@, value@);
        let found = self.option_index(key.as_str());
        proof {
            crate::json::lemma_view_members_index(self.options@);
        }
        match found {
            Some(i) => {
                assert(o[i as int].0 == key@);
                assert(exists|j: int| 0 <= j < o.len() && o[j].0 == key@);
                proof {
                    let c = choose|j: int| 0 <= j < o.len() && o[j].0 == key@;
                    assert(c == i);
                }
                self.options.set(i, (key, value));
                proof {
                    crate::json::lemma_view_members_index(self.options@);
                }
                assert(view_members(self.options@) =~= o.update(i as int, entry));
            },
            None => {
                assert(!exists|j: int| 0 <= j < o.len() && o[j].0 == key@);
                self.options.push((key, value));
                proof {
                    crate::json::lemma_view_members_index(self.options@);
                }
                assert(view_members(self.options@) =~= o.push(entry));
            },
        }
    }

    /// Whether the task holds nothing to print (only page breaks, or
    /// nothing at all).
    pub fn is_empty(&self) -> (r: bool)
        ensures
            r == only_page_breaks(self@.items),
    {
        for i in 0..self.items.len()
            invariant
                forall|j: int| 0 <= j < i ==> self@.items[j] is PageBreak,
        {
            assert(self@.items[i as int] == self.items@[i as int]@);
            if !matches!(self.items[i], PrintItem::PageBreak) {
                return false;
            }
        }
        true
    }
}


/// The short id of the `k`-th task opened by id: `T_` and `k` in at least
/// three digits.
pub open spec fn short_text(k: nat) -> Seq<char> {
    "T_"@ + zero_pad(decimal(k), 3)
}

/// No short id has the shape of a UUID: its second character is `_`.
pub proof fn lemma_short_not_uuid(k: nat)
    ensures
        !is_uuid_v4_text(short_text(k)),
{
    reveal_strlit("T_");
    assert(short_text(k)[1] == '_');
}

/// Different numbers give different short ids.
pub proof fn lemma_short_text_injective(a: nat, b: nat)
    requires
        short_text(a) == short_text(b),
    ensures
        a == b,
{
    reveal_strlit("T_");
    let x = zero_pad(decimal(a), 3);
    let y = zero_pad(decimal(b), 3);
    assert(x =~= short_text(a).subrange(2, short_text(a).len() as int));
    assert(y =~= short_text(b).subrange(2, short_text(b).len() as int));
    crate::text::lemma_padded_decimal_injective(a, b, 3);
}

/// The task manager of one connection: a current task for the single-task
/// commands, and tasks opened by id.
#[derive(Debug)]
pub struct TaskManager {
    pub current: Option<PrintTask>,
    /// The open tasks; no two share a full id or a short id.
    pub tasks: Vec<PrintTask>,
    pub next_short_id: u32,
}

/// The mathematical form of a task manager.
pub struct ManagerView {
    pub current: Option<TaskView>,
    pub tasks: Seq<TaskView>,
    pub next_short_id: u32,
}

/// The view of an optional task.
pub open spec fn opt_task(t: Option<PrintTask>) -> Option<TaskView> {
    match t {
        Some(x) => Some(x@),
        None => None,
    }
}

/// The views of tasks.
pub open spec fn tasks_view(s: Seq<PrintTask>) -> Seq<TaskView> {
    s.map_values(|t: PrintTask| t@)
}

impl View for TaskManager {
    type V = ManagerView;

    open spec fn view(&self) -> ManagerView {
        ManagerView {
            current: opt_task(self.current),
            tasks: tasks_view(self.tasks@),
            next_short_id: self.next_short_id,
        }
    }
}

/// Whether a short id is one of those handed out before the counter
/// reached `next`.
pub open spec fn short_handed_out(short: Option<Seq<char>>, next: u32) -> bool {
    exists|k: nat| 1 <= k < next && short == Some(short_text(k))
}

/// Whether a task manager is well formed: the counter is positive, full ids
/// and short ids are distinct, every short id was handed out before the
/// counter's value, every task's options have distinct keys, and every open
/// task's full id is a UUID.
pub open spec fn manager_wf(m: ManagerView) -> bool {
    &&& m.next_short_id >= 1
    &&& forall|i: int, j: int|
        0 <= i < m.tasks.len() && 0 <= j < m.tasks.len() && i != j ==> m.tasks[i].task_id
            != m.tasks[j].task_id && m.tasks[i].short_id != m.tasks[j].short_id
    &&& forall|i: int|
        #![trigger m.tasks[i]]
        0 <= i < m.tasks.len() ==> short_handed_out(m.tasks[i].short_id, m.next_short_id)
    &&& forall|i: int| #![trigger m.tasks[i]] 0 <= i < m.tasks.len() ==> task_wf(m.tasks[i])
    &&& forall|i: int| #![trigger m.tasks[i]] 0 <= i < m.tasks.len() ==> is_uuid_v4_text(m.tasks[i].task_id)
    &&& (m.current matches Some(t) ==> task_wf(t))
}

/// The first index whose task has short id `id`, or the length.
pub open spec fn first_short(ts: Seq<TaskView>, id: Seq<char>) -> int
    decreases ts.len(),
{
    if ts.len() == 0 {
        0
    } else if ts[0].short_id == Some(id) {
        0
    } else {
        1 + first_short(ts.drop_first(), id)
    }
}

/// The first index whose task has full id `id`, or the length.
pub open spec fn first_full(ts: Seq<TaskView>, id: Seq<char>) -> int
    decreases ts.len(),
{
    if ts.len() == 0 {
        0
    } else if ts[0].task_id == id {
        0
    } else {
        1 + first_full(ts.drop_first(), id)
    }
}

/// The task an id names: the task with that short id, else the task with
/// that full id.
pub open spec fn task_index(ts: Seq<TaskView>, id: Seq<char>) -> Option<int> {
    if first_short(ts, id) < ts.len() {
        Some(first_short(ts, id))
    } else if first_full(ts, id) < ts.len() {
        Some(first_full(ts, id))
    } else {
        None
    }
}

pub proof fn lemma_first_short(ts: Seq<TaskView>, id: Seq<char>, i: int)
    requires
        0 <= i <= ts.len(),
        forall|j: int| 0 <= j < i ==> ts[j].short_id != Some(id),
        i == ts.len() || ts[i].short_id == Some(id),
    ensures
        first_short(ts, id) == i,
    decreases i,
{
    if i > 0 {
        lemma_first_short(ts.drop_first(), id, i - 1);
    }
}

pub proof fn lemma_first_full_found(ts: Seq<TaskView>, id: Seq<char>)
    ensures
        0 <= first_full(ts, id) <= ts.len(),
        first_full(ts, id) < ts.len() ==> ts[first_full(ts, id)].task_id == id,
        first_full(ts, id) == ts.len() ==> forall|j: int| 0 <= j < ts.len() ==> ts[j].task_id != id,
    decreases ts.len(),
{
    if ts.len() > 0 {
        lemma_first_full_found(ts.drop_first(), id);
        if ts[0].task_id != id {
            assert forall|j: int| 0 <= j < ts.len() && first_full(ts, id) == ts.len() implies ts[j].task_id != id by {
                if j > 0 {
                    assert(ts[j] == ts.drop_first()[j - 1]);
                }
            }
        }
    }
}

pub proof fn lemma_first_full(ts: Seq<TaskView>, id: Seq<char>, i: int)
    requires
        0 <= i <= ts.len(),
        forall|j: int| 0 <= j < i ==> ts[j].task_id != id,
        i == ts.len() || ts[i].task_id == id,
    ensures
        first_full(ts, id) == i,
    decreases i,
{
    if i > 0 {
        lemma_first_full(ts.drop_first(), id, i - 1);
    }
}

/// Opening a task keeps the manager well formed: the new short id was
/// never handed out before, so it differs from every other.
pub proof fn lemma_open_keeps_wf(m: ManagerView, t: TaskView)
    requires
        manager_wf(m),
        m.next_short_id < u32::MAX,
        t.short_id == Some(short_text(m.next_short_id as nat)),
        task_wf(t),
        is_uuid_v4_text(t.task_id),
    ensures
        manager_wf(
            ManagerView {
                tasks: insert_task(m.tasks, t),
                next_short_id: (m.next_short_id + 1) as u32,
                current: m.current,
            },
        ),
{
    let k = m.next_short_id as nat;
    let old_ts = m.tasks;
    let n = ManagerView {
        tasks: insert_task(m.tasks, t),
        next_short_id: (m.next_short_id + 1) as u32,
        current: m.current,
    };
    assert forall|i: int| 0 <= i < old_ts.len() implies old_ts[i].short_id != Some(short_text(k)) by {
        assert(short_handed_out(old_ts[i].short_id, m.next_short_id));
        let j = choose|j: nat| 1 <= j < k && old_ts[i].short_id == Some(short_text(j));
        if old_ts[i].short_id == Some(short_text(k)) {
            lemma_short_text_injective(j, k);
        }
    }
    lemma_first_full_found(old_ts, t.task_id);
    let f = first_full(old_ts, t.task_id);
    assert forall|a: int| 0 <= a < n.tasks.len() implies #[trigger] n.tasks[a] == t || (0 <= a < old_ts.len()
        && n.tasks[a] == old_ts[a]) by {}
    assert forall|a: int, b: int|
        0 <= a < n.tasks.len() && 0 <= b < n.tasks.len() && a != b implies n.tasks[a].task_id
        != n.tasks[b].task_id && n.tasks[a].short_id != n.tasks[b].short_id by {
        if f < old_ts.len() {
            if a == f {
                assert(old_ts[b].task_id != old_ts[f].task_id);
            } else if b == f {
                assert(old_ts[a].task_id != old_ts[f].task_id);
            }
        } else {
            if a == old_ts.len() {
                assert(old_ts[b].task_id != t.task_id);
            } else if b == old_ts.len() {
                assert(old_ts[a].task_id != t.task_id);
            }
        }
    }
    assert forall|i: int| #![trigger n.tasks[i]] 0 <= i < n.tasks.len() implies short_handed_out(
        n.tasks[i].short_id,
        n.next_short_id,
    ) && task_wf(n.tasks[i]) && is_uuid_v4_text(n.tasks[i].task_id) by {
        if n.tasks[i] == t {
            assert(1 <= k < n.next_short_id && n.tasks[i].short_id == Some(short_text(k)));
        } else {
            assert(n.tasks[i] == old_ts[i]);
            assert(short_handed_out(old_ts[i].short_id, m.next_short_id));
            let j = choose|j: nat| 1 <= j < m.next_short_id && old_ts[i].short_id == Some(short_text(j));
            assert(1 <= j < n.next_short_id && n.tasks[i].short_id == Some(short_text(j)));
        }
    }
}

/// An id that is neither a short id nor a full id of any task names none.
pub proof fn lemma_task_index_none(ts: Seq<TaskView>, id: Seq<char>)
    requires
        forall|j: int| 0 <= j < ts.len() ==> ts[j].short_id != Some(id) && ts[j].task_id != id,
    ensures
        task_index(ts, id) is None,
{
    lemma_first_short(ts, id, ts.len() as int);
    lemma_first_full(ts, id, ts.len() as int);
}

/// Two task lists with the same ids at every index name the same task by
/// every id.
pub proof fn lemma_task_index_same_ids(a: Seq<TaskView>, b: Seq<TaskView>, id: Seq<char>)
    requires
        a.len() == b.len(),
        forall|j: int| 0 <= j < a.len() ==> a[j].task_id == b[j].task_id && a[j].short_id == b[j].short_id,
    ensures
        task_index(a, id) == task_index(b, id),
    decreases a.len(),
{
    if a.len() > 0 {
        lemma_task_index_same_ids_rest(a, b, id);
    }
}

proof fn lemma_task_index_same_ids_rest(a: Seq<TaskView>, b: Seq<TaskView>, id: Seq<char>)
    requires
        a.len() == b.len(),
        forall|j: int| 0 <= j < a.len() ==> a[j].task_id == b[j].task_id && a[j].short_id == b[j].short_id,
    ensures
        first_short(a, id) == first_short(b, id),
        first_full(a, id) == first_full(b, id),
    decreases a.len(),
{
    if a.len() > 0 {
        assert forall|j: int| 0 <= j < a.drop_first().len() implies a.drop_first()[j].task_id == b.drop_first()[j].task_id
            && a.drop_first()[j].short_id == b.drop_first()[j].short_id by {
            assert(a.drop_first()[j] == a[j + 1]);
            assert(b.drop_first()[j] == b[j + 1]);
        }
        lemma_task_index_same_ids_rest(a.drop_first(), b.drop_first(), id);
    }
}

/// The task list with `t` added under its full id: a task with the same id
/// is replaced in place, otherwise `t` is added at the end.
pub open spec fn insert_task(ts: Seq<TaskView>, t: TaskView) -> Seq<TaskView> {
    if first_full(ts, t.task_id) < ts.len() {
        ts.update(first_full(ts, t.task_id), t)
    } else {
        ts.push(t)
    }
}

/// The index an id names is in range and names a task with that id.
pub proof fn lemma_task_index_in_range(ts: Seq<TaskView>, id: Seq<char>)
    ensures
        task_index(ts, id) matches Some(i) ==> 0 <= i < ts.len() && (ts[i].short_id == Some(id)
            || ts[i].task_id == id),
{
    lemma_first_short_found(ts, id);
    lemma_first_full_found(ts, id);
}

proof fn lemma_first_short_found(ts: Seq<TaskView>, id: Seq<char>)
    ensures
        0 <= first_short(ts, id) <= ts.len(),
        first_short(ts, id) < ts.len() ==> ts[first_short(ts, id)].short_id == Some(id),
    decreases ts.len(),
{
    if ts.len() > 0 {
        lemma_first_short_found(ts.drop_first(), id);
    }
}

/// Replacing a task replaces its view.
pub proof fn lemma_tasks_view_update(s: Seq<PrintTask>, i: int)
    requires
        0 <= i < s.len(),
    ensures
        forall|x: PrintTask| #[trigger] tasks_view(s.update(i, x)) == tasks_view(s).update(i, x@),
{
    assert forall|x: PrintTask| #[trigger] tasks_view(s.update(i, x)) == tasks_view(s).update(i, x@) by {
        assert(tasks_view(s.update(i, x)) =~= tasks_view(s).update(i, x@));
    }
}

/// The `(full id, short id)` pairs of the tasks; a missing short id is
/// written empty.
pub open spec fn task_list(ts: Seq<TaskView>) -> Seq<(Seq<char>, Seq<char>)> {
    ts.map_values(
        |t: TaskView|
            (
                t.task_id,
                match t.short_id {
                    Some(s) => s,
                    None => Seq::empty(),
                },
            ),
    )
}

impl TaskManager {
    /// An empty manager whose first short id will be `T_001`.
    pub fn new() -> (m: TaskManager)
        ensures
            m@ == (ManagerView { current: None, tasks: Seq::empty(), next_short_id: 1 }),
            manager_wf(m@),
    {
        let m = TaskManager { current: None, tasks: Vec::new(), next_short_id: 1 };
        assert(tasks_view(m.tasks@) =~= Seq::<TaskView>::empty());
        m
    }

    /// Starts a new current task with this name, replacing any current
    /// task, and gives it back for changing.
    pub fn init(&mut self, name: String) -> (r: &mut PrintTask)
        requires
            manager_wf(old(self)@),
        ensures
            r@ == fresh_task(r@.task_id, name@),
            is_uuid_v4_text(r@.task_id),
            final(self)@ == (ManagerView { current: Some(final(r)@), ..old(self)@ }),
    {
        let task = PrintTask::new(name);
        self.current.insert(task)
    }

    /// The index of the task an id names.
    pub fn find_task(&self, id: &str) -> (r: Option<usize>)
        ensures
            match r {
                Some(i) => task_index(self@.tasks, id@) == Some(i as int),
                None => task_index(self@.tasks, id@) is None,
            },
    {
        let ghost ts = self@.tasks;
        let n = self.tasks.len();
        for i in 0..n
            invariant
                ts == self@.tasks,
                n == ts.len(),
                forall|j: int| 0 <= j < i ==> ts[j].short_id != Some(id@),
        {
            assert(ts[i as int] == self.tasks@[i as int]@);
            let hit = match &self.tasks[i].short_id {
                Some(s) => str_equal(s.as_str(), id),
                None => false,
            };
            if hit {
                proof {
                    lemma_first_short(ts, id@, i as int);
                }
                return Some(i);
            }
        }
        proof {
            lemma_first_short(ts, id@, n as int);
        }
        for i in 0..n
            invariant
                ts == self@.tasks,
                n == ts.len(),
                first_short(ts, id@) == n,
                forall|j: int| 0 <= j < i ==> ts[j].task_id != id@,
        {
            assert(ts[i as int] == self.tasks@[i as int]@);
            if str_equal(self.tasks[i].task_id.as_str(), id) {
                proof {
                    lemma_first_full(ts, id@, i as int);
                }
                return Some(i);
            }
        }
        proof {
            lemma_first_full(ts, id@, n as int);
        }
        None
    }

    /// The index of the task whose full id is `id`.
    fn find_full(&self, id: &str) -> (r: Option<usize>)
        ensures
            match r {
                Some(i) => first_full(self@.tasks, id@) == i && i < self@.tasks.len(),
                None => first_full(self@.tasks, id@) == self@.tasks.len(),
            },
    {
        let ghost ts = self@.tasks;
        let n = self.tasks.len();
        for i in 0..n
            invariant
                ts == self@.tasks,
                n == ts.len(),
                forall|j: int| 0 <= j < i ==> ts[j].task_id != id@,
        {
            assert(ts[i as int] == self.tasks@[i as int]@);
            if str_equal(self.tasks[i].task_id.as_str(), id) {
                proof {
                    lemma_first_full(ts, id@, i as int);
                }
                return Some(i);
            }
        }
        proof {
            lemma_first_full(ts, id@, n as int);
        }
        None
    }

    /// Opens a new task by id with this name and gives back its short id
    /// (`T_001`, `T_002`, ...). The task is kept under its full id.
    pub fn open_task(&mut self, name: String) -> (r: String)
        requires
            manager_wf(old(self)@),
            old(self).next_short_id < u32::MAX,
        ensures
            r@ == short_text(old(self).next_short_id as nat),
            manager_wf(final(self)@),
            exists|t: TaskView|
                #![trigger insert_task(old(self)@.tasks, t)]
                {
                    &&& t == (TaskView { short_id: Some(r@), ..fresh_task(t.task_id, name@) })
                    &&& is_uuid_v4_text(t.task_id)
                    &&& final(self)@ == (ManagerView {
                        tasks: insert_task(old(self)@.tasks, t),
                        next_short_id: (old(self).next_short_id + 1) as u32,
                        current: old(self)@.current,
                    })
                },
    {
        let mut task = PrintTask::new(name);
        let digits = padded_decimal(self.next_short_id, 3);
        let mut sv = chars_of("T_");
        let ghost prefix = sv@;
        for i in 0..digits.len()
            invariant
                sv@ == prefix + digits@.take(i as int),
        {
            sv.push(digits[i]);
            assert(digits@.take(i + 1) =~= digits@.take(i as int).push(digits@[i as int]));
        }
        assert(digits@.take(digits.len() as int) =~= digits@);
        let short = string_of(&sv);
        let ghost k = self.next_short_id as nat;
        assert(short@ == short_text(k));
        self.next_short_id = self.next_short_id + 1;
        task.short_id = Some(short.clone());
        let ghost tv = task@;
        let ghost old_ts = old(self)@.tasks;
        assert(task_wf(tv)) by {
            assert(tv.options =~= Seq::<(Seq<char>, JsonView)>::empty());
        }
        match self.find_full(task.task_id.as_str()) {
            Some(i) => {
                self.tasks.set(i, task);
                assert(tasks_view(self.tasks@) =~= old_ts.update(i as int, tv));
            },
            None => {
                self.tasks.push(task);
                assert(tasks_view(self.tasks@) =~= old_ts.push(tv));
            },
        }
        assert(self@.tasks == insert_task(old_ts, tv));
        proof {
            lemma_open_keeps_wf(old(self)@, tv);
        }
        short
    }

    /// The task an id names (short id first, then full id), to change it in
    /// place.
    pub fn get_task_mut(&mut self, task_id: &str) -> (r: Option<&mut PrintTask>)
        ensures
            match task_index(old(self)@.tasks, task_id@) {
                Some(i) => r matches Some(t) && t@ == old(self)@.tasks[i] && final(self)@ == (
                ManagerView { tasks: old(self)@.tasks.update(i, final(t)@), ..old(self)@ }),
                None => r is None && final(self)@ == old(self)@,
            },
    {
        match self.find_task(task_id) {
            Some(i) => {
                proof {
                    lemma_tasks_view_update(old(self).tasks@, i as int);
                }
                let t = &mut self.tasks[i];
                Some(t)
            },
            None => None,
        }
    }

    /// The current task, to change it in place.
    pub fn current_mut(&mut self) -> (r: Option<&mut PrintTask>)
        ensures
            match old(self)@.current {
                Some(c) => r matches Some(t) && t@ == c && final(self)@ == (ManagerView {
                    current: Some(final(t)@),
                    ..old(self)@
                }),
                None => r is None && final(self)@ == old(self)@,
            },
    {
        self.current.as_mut()
    }

    /// Taking a task that `open_task` just opened gives the list back: if
    /// `open_task` turned the manager `m` into `m2` by adding `t` under the
    /// short id `s` (`t`'s full id new to the list), then `take_task(s)`
    /// finds `t` at the end of the list and leaves exactly `m`'s tasks,
    /// `take_task` with `t`'s full id finds the same task, and a second
    /// `take_task(s)` finds nothing.
    pub proof fn taking_an_opened_task_gives_the_list_back(m: ManagerView, m2: ManagerView, s: Seq<char>, t: TaskView)
        requires
            manager_wf(m),
            m.next_short_id < u32::MAX,
            s == short_text(m.next_short_id as nat),
            t.short_id == Some(s),
            is_uuid_v4_text(t.task_id),
            forall|j: int| 0 <= j < m.tasks.len() ==> m.tasks[j].task_id != t.task_id,
            m2 == (ManagerView {
                tasks: insert_task(m.tasks, t),
                next_short_id: (m.next_short_id + 1) as u32,
                current: m.current,
            }),
        ensures
            task_index(m2.tasks, s) == Some(m.tasks.len() as int),
            task_index(m2.tasks, t.task_id) == Some(m.tasks.len() as int),
            m2.tasks[m.tasks.len() as int] == t,
            m2.tasks.remove(m.tasks.len() as int) == m.tasks,
            (ManagerView { tasks: m2.tasks.remove(m.tasks.len() as int), ..m2 }).current == m.current,
            task_index(m2.tasks.remove(m.tasks.len() as int), s) is None,
    {
        let k = m.next_short_id as nat;
        let n = m.tasks.len() as int;
        let ts = m.tasks.push(t);
        lemma_first_full_found(m.tasks, t.task_id);
        assert(m2.tasks == ts);
        assert forall|i: int| 0 <= i < n implies m.tasks[i].short_id != Some(s) && m.tasks[i].short_id != Some(
            t.task_id,
        ) && m.tasks[i].task_id != s by {
            assert(short_handed_out(m.tasks[i].short_id, m.next_short_id));
            let j = choose|j: nat| 1 <= j < k && m.tasks[i].short_id == Some(short_text(j));
            if m.tasks[i].short_id == Some(s) {
                lemma_short_text_injective(j, k);
            }
            lemma_short_not_uuid(j);
            lemma_short_not_uuid(k);
        }
        lemma_short_not_uuid(k);
        assert(ts[n] == t);
        lemma_first_short(ts, s, n);
        lemma_first_short(ts, t.task_id, n + 1);
        lemma_first_full(ts, t.task_id, n);
        assert(ts.remove(n) =~= m.tasks);
        lemma_task_index_none(m.tasks, s);
    }

    /// Removes the task an id names and gives it back.
    pub fn take_task(&mut self, task_id: &str) -> (r: Option<PrintTask>)
        ensures
            match task_index(old(self)@.tasks, task_id@) {
                Some(i) => r matches Some(t) && t@ == old(self)@.tasks[i] && final(self)@ == (
                ManagerView { tasks: old(self)@.tasks.remove(i), ..old(self)@ }),
                None => r is None && final(self)@ == old(self)@,
            },
    {
        match self.find_task(task_id) {
            Some(i) => {
                let t = self.tasks.remove(i);
                assert(tasks_view(self.tasks@) =~= old(self)@.tasks.remove(i as int));
                Some(t)
            },
            None => None,
        }
    }

    /// Removes the current task and gives it back.
    pub fn take(&mut self) -> (r: Option<PrintTask>)
        ensures
            opt_task(r) == old(self)@.current,
            final(self)@ == (ManagerView { current: None, ..old(self)@ }),
    {
        self.current.take()
    }

    /// Removes the task an id names; whether there was one.
    pub fn close_task(&mut self, task_id: &str) -> (r: bool)
        ensures
            r == (task_index(old(self)@.tasks, task_id@) is Some),
            match task_index(old(self)@.tasks, task_id@) {
                Some(i) => final(self)@ == (ManagerView {
                    tasks: old(self)@.tasks.remove(i),
                    ..old(self)@
                }),
                None => final(self)@ == old(self)@,
            },
    {
        self.take_task(task_id).is_some()
    }

    /// The `(full id, short id)` pair of every open task.
    pub fn list_tasks(&self) -> (r: Vec<(String, String)>)
        ensures
            r@.map_values(|p: (String, String)| (p.0@, p.1@)) == task_list(self@.tasks),
    {
        let mut r: Vec<(String, String)> = Vec::new();
        for i in 0..self.tasks.len()
            invariant
                r.len() == i,
                forall|j: int|
                    0 <= j < i ==> (#[trigger] r@[j].0@, r@[j].1@) == task_list(self@.tasks)[j],
        {
            let t = &self.tasks[i];
            assert(self@.tasks[i as int] == t@);
            let short = match &t.short_id {
                Some(s) => s.clone(),
                None => String::new(),
            };
            r.push((t.task_id.clone(), short));
        }
        assert(r@.map_values(|p: (String, String)| (p.0@, p.1@)) =~= task_list(self@.tasks));
        r
    }
}

impl Default for PrintTask {
    /// A new task named `untitled`.
    fn default() -> (t: PrintTask)
        ensures
            t@ == fresh_task(t@.task_id, "untitled"@),
            is_uuid_v4_text(t@.task_id),
    {
        PrintTask::new("untitled".to_owned())
    }
}

/// A task that the list holds is found by its short id: in a well-formed
/// manager the short id names that very task.
pub proof fn lemma_short_id_names_task(m: ManagerView, t: TaskView)
    requires
        manager_wf(m),
        t.short_id is Some,
        m.tasks.contains(t),
    ensures
        task_index(m.tasks, t.short_id->0) matches Some(i) && m.tasks[i] == t,
{
    let ts = m.tasks;
    let id = t.short_id->0;
    let j = choose|j: int| 0 <= j < ts.len() && ts[j] == t;
    assert forall|k: int| 0 <= k < j implies ts[k].short_id != Some(id) by {
        assert(ts[k].short_id != ts[j].short_id);
    }
    lemma_first_short(ts, id, j);
}

/// The task list after adding `t` holds `t`.
pub proof fn lemma_insert_task_contains(ts: Seq<TaskView>, t: TaskView)
    ensures
        insert_task(ts, t).contains(t),
{
    lemma_first_full_found(ts, t.task_id);
    let r = insert_task(ts, t);
    if first_full(ts, t.task_id) < ts.len() {
        assert(r[first_full(ts, t.task_id)] == t);
    } else {
        assert(r[ts.len() as int] == t);
    }
}

impl Default for TaskManager {
    fn default() -> (m: TaskManager)
        ensures
            m@ == (ManagerView { current: None, tasks: Seq::empty(), next_short_id: 1 }),
    {
        TaskManager::new()
    }
}

} // verus!
