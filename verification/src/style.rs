//! The style system: alignment, item types, and the style record of a print
//! item with its setter by name.

use vstd::prelude::*;
use vstd::std_specs::convert::FromSpecImpl;
use vstd::string::StringSliceAdditionalSpecFns;
use vstd::utf8::{decode_utf8, encode_utf8, is_char_boundary, valid_utf8, pop_first_scalar, length_of_first_scalar};
use crate::json::{JsonValue, JsonView, Number, jv_as_i64, jv_as_number, jv_as_str, number_as_i64};
use crate::types::{LineStyle, line_style_of};
use vstd::string::StringExecFns;
use crate::text::{
    ascii_lower_seq, chars_equal, chars_of, lower_chars, radix16_u8, string_of, trim, trim_chars,
    u8_from_str_radix16,
};

verus! {

broadcast use vstd::utf8::encode_utf8_valid_utf8, vstd::utf8::encode_utf8_decode_utf8;

/// Splitting off a prefix that ends on a character boundary keeps every
/// later boundary, shifted.
proof fn lemma_boundary_suffix(b: Seq<u8>, i: int, j: int)
    requires
        valid_utf8(b),
        is_char_boundary(b, i),
        i <= j,
    ensures
        is_char_boundary(b, j) <==> is_char_boundary(b.subrange(i, b.len() as int), j - i),
    decreases i,
{
    vstd::utf8::valid_utf8_split(b, i);
    if i == 0 {
        assert(b.subrange(0, b.len() as int) =~= b);
    } else {
        assert(b.len() > 0);
        assert(valid_utf8(b));
        let l = length_of_first_scalar(b);
        let p = pop_first_scalar(b);
        assert(1 <= l <= b.len());
        assert(valid_utf8(p));
        assert(is_char_boundary(p, i - l));
        assert(i - l >= 0);
        assert(p.subrange(i - l, p.len() as int) =~= b.subrange(i, b.len() as int));
        if j <= b.len() {
            lemma_boundary_suffix(p, i - l, j - l);
            assert(is_char_boundary(b, j) == is_char_boundary(p, j - l));
        } else {
            assert(!is_char_boundary(b, j));
            assert(!is_char_boundary(b.subrange(i, b.len() as int), j - i));
        }
    }
}


/// A colour as its red, green and blue components.
pub type Rgb = (u8, u8, u8);

/// The components of a colour array.
pub open spec fn rgb_of(a: [u8; 3]) -> Rgb {
    (a[0], a[1], a[2])
}

/// The named colours, by lower-case name.
pub open spec fn named_color(t: Seq<char>) -> Option<Rgb> {
    if t == "black"@ {
        Some((0u8, 0u8, 0u8))
    } else if t == "white"@ {
        Some((255u8, 255u8, 255u8))
    } else if t == "red"@ {
        Some((255u8, 0u8, 0u8))
    } else if t == "green"@ {
        Some((0u8, 128u8, 0u8))
    } else if t == "blue"@ {
        Some((0u8, 0u8, 255u8))
    } else if t == "yellow"@ {
        Some((255u8, 255u8, 0u8))
    } else if t == "gray"@ || t == "grey"@ {
        Some((128u8, 128u8, 128u8))
    } else {
        None
    }
}

/// Whether the trimmed text is `#` followed by six bytes of UTF-8.
pub open spec fn color_is_hex(s: Seq<char>) -> bool {
    let t = trim(s);
    t.len() > 0 && t[0] == '#' && encode_utf8(t.drop_first()).len() == 6
}

/// The six bytes after the `#`.
pub open spec fn color_hex_bytes(s: Seq<char>) -> Seq<u8> {
    encode_utf8(trim(s).drop_first())
}

/// Whether reading the colour cuts a character in two: the byte offsets 2
/// and 4 of the hex part must be character boundaries, and the second is
/// reached only when the first pair reads as a number.
pub open spec fn color_panics(s: Seq<char>) -> bool {
    let b = color_hex_bytes(s);
    color_is_hex(s) && (!is_char_boundary(b, 2) || (radix16_u8(decode_utf8(b.subrange(0, 2)))
        is Some && !is_char_boundary(b, 4)))
}

/// The colour a text names: `#RRGGBB` (each pair read as `u8::from_str_radix`
/// reads it), or one of the named colours in any ASCII case; white space
/// around the text is ignored.
pub open spec fn color_of(s: Seq<char>) -> Option<Rgb> {
    let t = trim(s);
    if color_is_hex(s) {
        let b = color_hex_bytes(s);
        match (
            radix16_u8(decode_utf8(b.subrange(0, 2))),
            radix16_u8(decode_utf8(b.subrange(2, 4))),
            radix16_u8(decode_utf8(b.subrange(4, 6))),
        ) {
            (Some(r), Some(g), Some(x)) => Some((r, g, x)),
            _ => None,
        }
    } else {
        named_color(ascii_lower_seq(t))
    }
}

/// Whether `parse_color` can be called on the text without cutting a
/// character in two.
pub fn color_text_is_safe(s: &str) -> (r: bool)
    ensures
        r == !color_panics(s@),
{
    let t = trim_chars(&chars_of(s));
    if t.len() > 0 && t[0] == '#' {
        let hex = string_of(&tail_chars(&t));
        let h = hex.as_str();
        assert(h@ == trim(s@).drop_first());
        assert(h.spec_bytes() == color_hex_bytes(s@));
        if h.as_bytes().len() == 6 {
            if !h.is_char_boundary(2) {
                return false;
            }
            let (p1, _) = h.split_at(2);
            if u8_from_str_radix16(p1).is_ok() {
                return h.is_char_boundary(4);
            }
        }
    }
    true
}

/// All characters but the first.
fn tail_chars(t: &Vec<char>) -> (r: Vec<char>)
    requires
        t.len() > 0,
    ensures
        r@ == t@.drop_first(),
{
    let mut r: Vec<char> = Vec::new();
    for i in 1..t.len()
        invariant
            r@ == t@.subrange(1, i as int),
    {
        r.push(t[i]);
        assert(t@.subrange(1, i + 1) =~= t@.subrange(1, i as int).push(t@[i as int]));
    }
    r
}

/// Reads a colour: `#RRGGBB` or a colour name (`black`, `white`, `red`,
/// `green`, `blue`, `yellow`, `gray`/`grey`, in any ASCII case), ignoring
/// surrounding white space.
pub fn parse_color(s: &str) -> (r: Option<[u8; 3]>)
    requires
        !color_panics(s@),
    ensures
        match r {
            Some(a) => color_of(s@) == Some(rgb_of(a)),
            None => color_of(s@) is None,
        },
{
    let t = trim_chars(&chars_of(s));
    if t.len() > 0 && t[0] == '#' {
        let hex = string_of(&tail_chars(&t));
        let h = hex.as_str();
        assert(h@ == trim(s@).drop_first());
        assert(h.spec_bytes() == color_hex_bytes(s@));
        if h.as_bytes().len() == 6 {
            let ghost b = h.spec_bytes();
            let (p1, rest) = h.split_at(2);
            assert(p1.spec_bytes() == b.subrange(0, 2));
            let r = match u8_from_str_radix16(p1) {
                Ok(v) => v,
                Err(_) => {
                    return None;
                },
            };
            proof {
                lemma_boundary_suffix(b, 2, 4);
                assert(b.subrange(2, b.len() as int) =~= rest.spec_bytes());
            }
            let (p2, p3) = rest.split_at(2);
            assert(p2.spec_bytes() =~= b.subrange(2, 4));
            assert(p3.spec_bytes() =~= b.subrange(4, 6));
            let g = match u8_from_str_radix16(p2) {
                Ok(v) => v,
                Err(_) => {
                    return None;
                },
            };
            let x = match u8_from_str_radix16(p3) {
                Ok(v) => v,
                Err(_) => {
                    return None;
                },
            };
            let a = [r, g, x];
            return Some(a);
        }
    }
    let lower = lower_chars(&t);
    if chars_equal(&lower, "black") {
        Some([0, 0, 0])
    } else if chars_equal(&lower, "white") {
        Some([255, 255, 255])
    } else if chars_equal(&lower, "red") {
        Some([255, 0, 0])
    } else if chars_equal(&lower, "green") {
        Some([0, 128, 0])
    } else if chars_equal(&lower, "blue") {
        Some([0, 0, 255])
    } else if chars_equal(&lower, "yellow") {
        Some([255, 255, 0])
    } else if chars_equal(&lower, "gray") || chars_equal(&lower, "grey") {
        Some([128, 128, 128])
    } else {
        None
    }
}


/// Text alignment.
#[derive(Debug, Clone, Copy, PartialEq, Eq, Structural)]
pub enum Alignment {
    Left,
    Center,
    Right,
}

impl Default for Alignment {
    fn default() -> (r: Alignment)
        ensures
            r == Alignment::Left,
    {
        Alignment::Left
    }
}

/// The alignment a number selects: 2 centre, 3 right, anything else left.
pub open spec fn alignment_of(n: i32) -> Alignment {
    if n == 2 {
        Alignment::Center
    } else if n == 3 {
        Alignment::Right
    } else {
        Alignment::Left
    }
}

impl From<i32> for Alignment {
    fn from(n: i32) -> (r: Alignment) {
        if n == 2 {
            Alignment::Center
        } else if n == 3 {
            Alignment::Right
        } else {
            Alignment::Left
        }
    }
}

impl FromSpecImpl<i32> for Alignment {
    open spec fn obeys_from_spec() -> bool {
        true
    }

    open spec fn from_spec(n: i32) -> Alignment {
        alignment_of(n)
    }
}

/// Special roles of a print item.
#[derive(Debug, Clone, Copy, PartialEq, Eq, Structural)]
pub enum ItemType {
    Normal,
    HeaderFooter,
    PageNum,
    PageTotal,
    Sequence,
}

impl Default for ItemType {
    fn default() -> (r: ItemType)
        ensures
            r == ItemType::Normal,
    {
        ItemType::Normal
    }
}

/// The item type a number selects: 1 to 4 in order, anything else normal.
pub open spec fn item_type_of(n: i32) -> ItemType {
    if n == 1 {
        ItemType::HeaderFooter
    } else if n == 2 {
        ItemType::PageNum
    } else if n == 3 {
        ItemType::PageTotal
    } else if n == 4 {
        ItemType::Sequence
    } else {
        ItemType::Normal
    }
}

impl From<i32> for ItemType {
    fn from(n: i32) -> (r: ItemType) {
        if n == 1 {
            ItemType::HeaderFooter
        } else if n == 2 {
            ItemType::PageNum
        } else if n == 3 {
            ItemType::PageTotal
        } else if n == 4 {
            ItemType::Sequence
        } else {
            ItemType::Normal
        }
    }
}

impl FromSpecImpl<i32> for ItemType {
    open spec fn obeys_from_spec() -> bool {
        true
    }

    open spec fn from_spec(n: i32) -> ItemType {
        item_type_of(n)
    }
}

/// The style of a print item. Every field is unset until a style is set;
/// the sizes and widths keep the JSON number they were given.
#[derive(Debug)]
pub struct PrintStyle {
    pub font_name: Option<String>,
    pub font_size: Option<Number>,
    pub font_color: Option<[u8; 3]>,
    pub bold: Option<bool>,
    pub italic: Option<bool>,
    pub underline: Option<bool>,
    pub alignment: Option<Alignment>,
    pub angle: Option<i32>,
    pub item_type: Option<ItemType>,
    pub as_image: Option<bool>,
    pub keep_color: Option<bool>,
    pub back_color: Option<[u8; 3]>,
    pub line_style: Option<LineStyle>,
    pub line_width: Option<Number>,
}

/// The mathematical form of a style.
pub struct StyleView {
    pub font_name: Option<Seq<char>>,
    pub font_size: Option<Number>,
    pub font_color: Option<Rgb>,
    pub bold: Option<bool>,
    pub italic: Option<bool>,
    pub underline: Option<bool>,
    pub alignment: Option<Alignment>,
    pub angle: Option<i32>,
    pub item_type: Option<ItemType>,
    pub as_image: Option<bool>,
    pub keep_color: Option<bool>,
    pub back_color: Option<Rgb>,
    pub line_style: Option<LineStyle>,
    pub line_width: Option<Number>,
}

/// The view of an optional text.
pub open spec fn opt_text(s: Option<String>) -> Option<Seq<char>> {
    match s {
        Some(t) => Some(t@),
        None => None,
    }
}

/// The view of an optional colour.
pub open spec fn opt_rgb(c: Option<[u8; 3]>) -> Option<Rgb> {
    match c {
        Some(a) => Some(rgb_of(a)),
        None => None,
    }
}

impl View for PrintStyle {
    type V = StyleView;

    open spec fn view(&self) -> StyleView {
        StyleView {
            font_name: opt_text(self.font_name),
            font_size: self.font_size,
            font_color: opt_rgb(self.font_color),
            bold: self.bold,
            italic: self.italic,
            underline: self.underline,
            alignment: self.alignment,
            angle: self.angle,
            item_type: self.item_type,
            as_image: self.as_image,
            keep_color: self.keep_color,
            back_color: opt_rgb(self.back_color),
            line_style: self.line_style,
            line_width: self.line_width,
        }
    }
}

/// The style with nothing set.
pub open spec fn empty_style() -> StyleView {
    StyleView {
        font_name: None,
        font_size: None,
        font_color: None,
        bold: None,
        italic: None,
        underline: None,
        alignment: None,
        angle: None,
        item_type: None,
        as_image: None,
        keep_color: None,
        back_color: None,
        line_style: None,
        line_width: None,
    }
}

impl Default for PrintStyle {
    fn default() -> (r: PrintStyle)
        ensures
            r@ == empty_style(),
    {
        PrintStyle {
            font_name: None,
            font_size: None,
            font_color: None,
            bold: None,
            italic: None,
            underline: None,
            alignment: None,
            angle: None,
            item_type: None,
            as_image: None,
            keep_color: None,
            back_color: None,
            line_style: None,
            line_width: None,
        }
    }
}

/// How a JSON value reads as a flag: a boolean as itself, a number as
/// "not zero" when it is an `i64` (other numbers read as zero), anything
/// else as false.
pub open spec fn flag_of(v: JsonView) -> bool {
    match v {
        JsonView::Bool(b) => b,
        JsonView::Number(n) => match number_as_i64(n) {
            Some(i) => i != 0,
            None => false,
        },
        _ => false,
    }
}

/// Reads a JSON value as a flag.
pub fn parse_bool(v: &JsonValue) -> (r: bool)
    ensures
        r == flag_of(v@),
{
    match v {
        JsonValue::Bool(b) => *b,
        JsonValue::Number(n) => match n.as_i64() {
            Some(i) => i != 0,
            None => false,
        },
        _ => false,
    }
}

/// The style names that `set` knows.
pub open spec fn known_style_name(name: Seq<char>) -> bool {
    name == "FontName"@ || name == "FontSize"@ || name == "FontColor"@ || name == "Bold"@ || name
        == "Italic"@ || name == "Underline"@ || name == "Alignment"@ || name == "Angle"@ || name
        == "ItemType"@ || name == "AsImage"@ || name == "KeepColor"@ || name == "BackColor"@ || name
        == "LineStyle"@ || name == "LineWidth"@
}

/// Whether setting `name` to `v` would read a colour text that cuts a
/// character in two.
pub open spec fn style_set_panics(name: Seq<char>, v: JsonView) -> bool {
    (name == "FontColor"@ || name == "BackColor"@) && match jv_as_str(v) {
        Some(s) => color_panics(s),
        None => false,
    }
}

/// A colour field after setting it from a value: a text replaces it with
/// the colour it names (or with nothing), any other value leaves it.
pub open spec fn color_field(old: Option<Rgb>, v: JsonView) -> Option<Rgb> {
    match jv_as_str(v) {
        Some(s) => color_of(s),
        None => old,
    }
}

/// The style after setting the known style `name` to `v`.
pub open spec fn style_with(st: StyleView, name: Seq<char>, v: JsonView) -> StyleView {
    if name == "FontName"@ {
        StyleView { font_name: jv_as_str(v), ..st }
    } else if name == "FontSize"@ {
        StyleView { font_size: jv_as_number(v), ..st }
    } else if name == "FontColor"@ {
        StyleView { font_color: color_field(st.font_color, v), ..st }
    } else if name == "Bold"@ {
        StyleView { bold: Some(flag_of(v)), ..st }
    } else if name == "Italic"@ {
        StyleView { italic: Some(flag_of(v)), ..st }
    } else if name == "Underline"@ {
        StyleView { underline: Some(flag_of(v)), ..st }
    } else if name == "Alignment"@ {
        StyleView {
            alignment: match jv_as_i64(v) {
                Some(n) => Some(alignment_of(n as i32)),
                None => None,
            },
            ..st
        }
    } else if name == "Angle"@ {
        StyleView {
            angle: match jv_as_i64(v) {
                Some(n) => Some(n as i32),
                None => None,
            },
            ..st
        }
    } else if name == "ItemType"@ {
        StyleView {
            item_type: match jv_as_i64(v) {
                Some(n) => Some(item_type_of(n as i32)),
                None => None,
            },
            ..st
        }
    } else if name == "AsImage"@ {
        StyleView { as_image: Some(flag_of(v)), ..st }
    } else if name == "KeepColor"@ {
        StyleView { keep_color: Some(flag_of(v)), ..st }
    } else if name == "BackColor"@ {
        StyleView { back_color: color_field(st.back_color, v), ..st }
    } else if name == "LineStyle"@ {
        StyleView {
            line_style: match jv_as_str(v) {
                Some(s) => Some(line_style_of(s)),
                None => st.line_style,
            },
            ..st
        }
    } else {
        StyleView { line_width: jv_as_number(v), ..st }
    }
}

/// The message for a style name that `set` does not know.
pub open spec fn unknown_style_message(name: Seq<char>) -> Seq<char> {
    "未知样式名: "@ + name
}

impl PrintStyle {
    /// A copy of the style.
    pub fn duplicate(&self) -> (r: PrintStyle)
        ensures
            r@ == self@,
    {
        PrintStyle {
            font_name: match &self.font_name {
                Some(n) => Some(n.clone()),
                None => None,
            },
            font_size: self.font_size,
            font_color: self.font_color,
            bold: self.bold,
            italic: self.italic,
            underline: self.underline,
            alignment: self.alignment,
            angle: self.angle,
            item_type: self.item_type,
            as_image: self.as_image,
            keep_color: self.keep_color,
            back_color: self.back_color,
            line_style: self.line_style,
            line_width: self.line_width,
        }
    }

    /// A style with nothing set.
    pub fn new() -> (r: PrintStyle)
        ensures
            r@ == empty_style(),
    {
        PrintStyle::default()
    }

    /// Sets the style called `name` from a JSON value. Names: `FontName`,
    /// `FontSize`, `FontColor`, `Bold`, `Italic`, `Underline`, `Alignment`,
    /// `Angle`, `ItemType`, `AsImage`, `KeepColor`, `BackColor`, `LineStyle`,
    /// `LineWidth`; any other name is refused and changes nothing.
    pub fn set(&mut self, name: &str, value: &JsonValue) -> (r: Result<(), String>)
        requires
            !style_set_panics(name@, value@),
        ensures
            match r {
                Ok(()) => known_style_name(name@) && final(self)@ == style_with(
                    old(self)@,
                    name@,
                    value@,
                ),
                Err(m) => !known_style_name(name@) && m@ == unknown_style_message(name@)
                    && final(self)@ == old(self)@,
            },
    {
        let n = chars_of(name);
        if chars_equal(&n, "FontName") {
            self.font_name = match value.as_str() {
                Some(s) => Some(s.to_owned()),
                None => None,
            };
        } else if chars_equal(&n, "FontSize") {
            self.font_size = value.as_number();
        } else if chars_equal(&n, "FontColor") {
            if let Some(s) = value.as_str() {
                self.font_color = parse_color(s);
            }
        } else if chars_equal(&n, "Bold") {
            self.bold = Some(parse_bool(value));
        } else if chars_equal(&n, "Italic") {
            self.italic = Some(parse_bool(value));
        } else if chars_equal(&n, "Underline") {
            self.underline = Some(parse_bool(value));
        } else if chars_equal(&n, "Alignment") {
            self.alignment = match value.as_i64() {
                Some(k) => Some(Alignment::from(k as i32)),
                None => None,
            };
        } else if chars_equal(&n, "Angle") {
            self.angle = match value.as_i64() {
                Some(k) => Some(k as i32),
                None => None,
            };
        } else if chars_equal(&n, "ItemType") {
            self.item_type = match value.as_i64() {
                Some(k) => Some(ItemType::from(k as i32)),
                None => None,
            };
        } else if chars_equal(&n, "AsImage") {
            self.as_image = Some(parse_bool(value));
        } else if chars_equal(&n, "KeepColor") {
            self.keep_color = Some(parse_bool(value));
        } else if chars_equal(&n, "BackColor") {
            if let Some(s) = value.as_str() {
                self.back_color = parse_color(s);
            }
        } else if chars_equal(&n, "LineStyle") {
            if let Some(s) = value.as_str() {
                self.line_style = Some(LineStyle::parse(s));
            }
        } else if chars_equal(&n, "LineWidth") {
            self.line_width = value.as_number();
        } else {
            return Err("未知样式名: ".to_owned().concat(name));
        }
        Ok(())
    }
}

} // verus!
