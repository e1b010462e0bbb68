//! Printer descriptions and the runtime printer registry.

use vstd::prelude::*;
use crate::json::{JsonValue, JsonView, empty_object, json_str, push_member, view_members};
use crate::text::{ascii_lower_seq, chars_of, lower_chars};

verus! {

/// A printer as the system lists it.
#[derive(Debug)]
pub struct PrinterInfo {
    pub name: String,
    pub driver: Option<String>,
    pub port: Option<String>,
    pub is_default: bool,
}

/// The mathematical form of a printer description.
pub struct PrinterView {
    pub name: Seq<char>,
    pub driver: Option<Seq<char>>,
    pub port: Option<Seq<char>>,
    pub is_default: bool,
}

impl View for PrinterInfo {
    type V = PrinterView;

    open spec fn view(&self) -> PrinterView {
        PrinterView {
            name: self.name@,
            driver: match self.driver {
                Some(d) => Some(d@),
                None => None,
            },
            port: match self.port {
                Some(p) => Some(p@),
                None => None,
            },
            is_default: self.is_default,
        }
    }
}

/// The views of printer descriptions.
pub open spec fn printers_view(s: Seq<PrinterInfo>) -> Seq<PrinterView> {
    s.map_values(|p: PrinterInfo| p@)
}

/// An optional text as JSON: the text, or `null`.
pub open spec fn opt_text_json(t: Option<Seq<char>>) -> JsonView {
    match t {
        Some(s) => JsonView::Str(s),
        None => JsonView::Null,
    }
}

/// A printer description as JSON, with its field names.
pub open spec fn printer_json(p: PrinterView) -> JsonView {
    JsonView::Object(
        seq![
            ("name"@, JsonView::Str(p.name)),
            ("driver"@, opt_text_json(p.driver)),
            ("port"@, opt_text_json(p.port)),
            ("is_default"@, JsonView::Bool(p.is_default)),
        ],
    )
}

/// An optional text as a JSON value.
pub fn opt_text_value(t: &Option<String>) -> (r: JsonValue)
    ensures
        r@ == opt_text_json(
            match *t {
                Some(s) => Some(s@),
                None => None,
            },
        ),
{
    match t {
        Some(s) => json_str(s.as_str()),
        None => JsonValue::Null,
    }
}

impl PrinterInfo {
    /// The description as JSON.
    pub fn to_json(&self) -> (r: JsonValue)
        ensures
            r@ == printer_json(self@),
    {
        let mut m = empty_object();
        push_member(&mut m, "name", json_str(self.name.as_str()));
        push_member(&mut m, "driver", opt_text_value(&self.driver));
        push_member(&mut m, "port", opt_text_value(&self.port));
        push_member(&mut m, "is_default", JsonValue::Bool(self.is_default));
        assert(view_members(m@) =~= seq![
            ("name"@, JsonView::Str(self@.name)),
            ("driver"@, opt_text_json(self@.driver)),
            ("port"@, opt_text_json(self@.port)),
            ("is_default"@, JsonView::Bool(self@.is_default)),
        ]);
        JsonValue::Object(m)
    }
}

/// A cache of the system's printers.
#[derive(Debug)]
pub struct PrinterRegistry {
    pub printers: Vec<PrinterInfo>,
    pub default_printer: Option<String>,
}

/// Whether two names are equal when ASCII letters are compared without
/// case.
pub open spec fn same_name(a: Seq<char>, b: Seq<char>) -> bool {
    ascii_lower_seq(a) == ascii_lower_seq(b)
}

impl PrinterRegistry {
    /// An empty registry.
    pub fn new() -> (r: PrinterRegistry)
        ensures
            r.printers@.len() == 0,
            r.default_printer is None,
    {
        PrinterRegistry { printers: Vec::new(), default_printer: None }
    }

    /// The names of the printers, in order.
    pub fn names(&self) -> (r: Vec<String>)
        ensures
            r@.map_values(|s: String| s@) == printers_view(self.printers@).map_values(
                |p: PrinterView| p.name,
            ),
    {
        let mut r: Vec<String> = Vec::new();
        for i in 0..self.printers.len()
            invariant
                r.len() == i,
                forall|j: int| 0 <= j < i ==> #[trigger] r@[j]@ == self.printers@[j]@.name,
        {
            r.push(self.printers[i].name.clone());
        }
        assert(r@.map_values(|s: String| s@) =~= printers_view(self.printers@).map_values(
            |p: PrinterView| p.name,
        ));
        r
    }

    /// Whether a printer of this name is known, ignoring ASCII case.
    pub fn has(&self, name: &str) -> (r: bool)
        ensures
            r == exists|i: int|
                0 <= i < self.printers@.len() && same_name(self.printers@[i]@.name, name@),
    {
        let want = lower_chars(&chars_of(name));
        for i in 0..self.printers.len()
            invariant
                want@ == ascii_lower_seq(name@),
                forall|j: int| 0 <= j < i ==> !same_name(#[trigger] self.printers@[j]@.name, name@),
        {
            let got = lower_chars(&chars_of(self.printers[i].name.as_str()));
            if got.len() == want.len() {
                let mut same = true;
                let mut k: usize = 0;
                while k < got.len()
                    invariant
                        got.len() == want.len(),
                        k <= got.len(),
                        same == forall|x: int| 0 <= x < k ==> got@[x] == want@[x],
                    decreases got.len() - k,
                {
                    if got[k] != want[k] {
                        same = false;
                    }
                    k = k + 1;
                }
                if same {
                    assert(got@ =~= want@);
                    return true;
                }
                assert(got@ != want@) by {
                    let x = choose|x: int| 0 <= x < got.len() && got@[x] != want@[x];
                }
            }
        }
        false
    }
}

} // verus!
