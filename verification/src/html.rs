//! HTML to plain text, as the service prints HTML and table items: tags are
//! dropped, block tags become line breaks, cells become tabs, a few named
//! entities are decoded, runs of white space collapse, and every line is
//! trimmed.

use vstd::prelude::*;
use crate::text::{
    ascii_lower_seq, chars_equal, chars_of, is_white_space, lower_chars, string_of, trim, trim_chars,
    white_space,
};

verus! {

/// What `char::is_alphanumeric` answers for a character (the Unicode
/// `Alphabetic` or `Numeric` property).
pub uninterp spec fn char_is_alphanumeric(c: char) -> bool;

/// `char::is_alphanumeric`. The contract names the result; of the Unicode
/// tables behind it, only the ASCII part is stated: the ASCII letters and
/// digits are alphanumeric, and no other ASCII character is.
#[verifier::external_body]
fn alphanumeric(c: char) -> (r: bool)
    ensures
        r == char_is_alphanumeric(c),
        (c as u32) < 128 ==> (r <==> (('a' <= c && c <= 'z') || ('A' <= c && c <= 'Z') || ('0' <= c && c <= '9'))),
{
    c.is_alphanumeric()
}

/// The scanner's state after a prefix of the input.
pub struct Scan {
    pub out: Seq<char>,
    pub in_tag: bool,
    pub in_entity: bool,
    pub entity: Seq<char>,
    pub tag: Seq<char>,
    pub reading_tag: bool,
}

/// Whether a character continues a tag's name: an ASCII letter or digit,
/// or any other character that `char::is_alphanumeric` accepts.
pub open spec fn tag_char(c: char) -> bool {
    if (c as u32) < 128 {
        ('a' <= c && c <= 'z') || ('A' <= c && c <= 'Z') || ('0' <= c && c <= '9')
    } else {
        char_is_alphanumeric(c)
    }
}

/// The state before any input.
pub open spec fn scan_start() -> Scan {
    Scan {
        out: Seq::empty(),
        in_tag: false,
        in_entity: false,
        entity: Seq::empty(),
        tag: Seq::empty(),
        reading_tag: false,
    }
}

/// The text an entity name (between `&` and `;`) stands for; unknown names
/// stand for nothing.
pub open spec fn entity_text(e: Seq<char>) -> Seq<char> {
    if e == "nbsp"@ || e == "ensp"@ || e == "emsp"@ {
        " "@
    } else if e == "lt"@ {
        "<"@
    } else if e == "gt"@ {
        ">"@
    } else if e == "amp"@ {
        "&"@
    } else if e == "quot"@ {
        "\""@
    } else if e == "copy"@ {
        "(c)"@
    } else {
        Seq::empty()
    }
}

/// The text that the end of an opening tag adds, by the tag's lower-cased
/// name.
pub open spec fn tag_text(t: Seq<char>) -> Seq<char> {
    if t == "br"@ || t == "p"@ || t == "div"@ || t == "h1"@ || t == "h2"@ || t == "h3"@ || t
        == "h4"@ || t == "h5"@ || t == "h6"@ || t == "li"@ || t == "tr"@ {
        "\n"@
    } else if t == "td"@ || t == "th"@ {
        "\t"@
    } else if t == "hr"@ {
        "\n---\n"@
    } else {
        Seq::empty()
    }
}

/// Whether the output so far ends in a space, a line break or a tab.
pub open spec fn ends_in_gap(out: Seq<char>) -> bool {
    out.len() > 0 && (out.last() == ' ' || out.last() == '\n' || out.last() == '\t')
}

/// One step of the scanner.
pub open spec fn scan_step(st: Scan, ch: char) -> Scan {
    if st.in_entity {
        if ch == ';' {
            Scan { in_entity: false, out: st.out + entity_text(st.entity), entity: Seq::empty(), ..st }
        } else {
            Scan { entity: st.entity.push(ch), ..st }
        }
    } else if ch == '&' {
        Scan { in_entity: true, ..st }
    } else if ch == '<' {
        Scan { in_tag: true, reading_tag: true, tag: Seq::empty(), ..st }
    } else if ch == '>' {
        Scan {
            in_tag: false,
            reading_tag: false,
            out: st.out + tag_text(ascii_lower_seq(st.tag)),
            ..st
        }
    } else if st.in_tag {
        if st.reading_tag {
            if tag_char(ch) {
                Scan { tag: st.tag.push(ch), ..st }
            } else {
                Scan { reading_tag: false, ..st }
            }
        } else {
            st
        }
    } else if is_white_space(ch) {
        if ends_in_gap(st.out) {
            st
        } else {
            Scan { out: st.out.push(' '), ..st }
        }
    } else {
        Scan { out: st.out.push(ch), ..st }
    }
}

/// The scanner's state after the whole of `s`.
pub open spec fn scan(s: Seq<char>) -> Scan
    decreases s.len(),
{
    if s.len() == 0 {
        scan_start()
    } else {
        scan_step(scan(s.drop_last()), s.last())
    }
}

/// `s` cut at every line break, as `str::split('\n')` cuts it.
pub open spec fn split_lines(s: Seq<char>) -> Seq<Seq<char>>
    decreases s.len(),
{
    if s.len() == 0 {
        seq![Seq::empty()]
    } else {
        let p = split_lines(s.drop_last());
        if s.last() == '\n' {
            p.push(Seq::empty())
        } else {
            p.update(p.len() - 1, p.last().push(s.last()))
        }
    }
}

/// Lines joined with line breaks between them.
pub open spec fn join_lines(l: Seq<Seq<char>>) -> Seq<char>
    decreases l.len(),
{
    if l.len() == 0 {
        Seq::empty()
    } else if l.len() == 1 {
        l[0]
    } else {
        join_lines(l.drop_last()) + seq!['\n'] + l.last()
    }
}

/// Every line trimmed.
pub open spec fn trim_each(l: Seq<Seq<char>>) -> Seq<Seq<char>> {
    l.map_values(|x: Seq<char>| trim(x))
}

/// The plain text of an HTML fragment.
pub open spec fn html_text(s: Seq<char>) -> Seq<char> {
    trim(join_lines(trim_each(split_lines(scan(s).out))))
}


/// The views of a vector of character vectors.
pub open spec fn views(l: Seq<Vec<char>>) -> Seq<Seq<char>> {
    l.map_values(|v: Vec<char>| v@)
}

/// Appends the characters of `t`.
fn append_str(v: &mut Vec<char>, t: &str)
    ensures
        final(v)@ == old(v)@ + t@,
{
    let w = chars_of(t);
    let ghost start = v@;
    for i in 0..w.len()
        invariant
            v@ == start + w@.take(i as int),
    {
        v.push(w[i]);
        assert(w@.take(i + 1) =~= w@.take(i as int).push(w@[i as int]));
    }
    assert(w@.take(w.len() as int) =~= w@);
}

/// The text of an entity name.
fn entity_str(e: &Vec<char>) -> (r: &'static str)
    ensures
        r@ == entity_text(e@),
{
    if chars_equal(e, "nbsp") || chars_equal(e, "ensp") || chars_equal(e, "emsp") {
        " "
    } else if chars_equal(e, "lt") {
        "<"
    } else if chars_equal(e, "gt") {
        ">"
    } else if chars_equal(e, "amp") {
        "&"
    } else if chars_equal(e, "quot") {
        "\""
    } else if chars_equal(e, "copy") {
        "(c)"
    } else {
        proof {
            reveal_strlit("");
        }
        ""
    }
}

/// The text that closing the opening tag `t` (lower-cased) adds.
fn tag_str(t: &Vec<char>) -> (r: &'static str)
    ensures
        r@ == tag_text(t@),
{
    if chars_equal(t, "br") || chars_equal(t, "p") || chars_equal(t, "div") || chars_equal(t, "h1")
        || chars_equal(t, "h2") || chars_equal(t, "h3") || chars_equal(t, "h4") || chars_equal(
        t,
        "h5",
    ) || chars_equal(t, "h6") || chars_equal(t, "li") || chars_equal(t, "tr") {
        "\n"
    } else if chars_equal(t, "td") || chars_equal(t, "th") {
        "\t"
    } else if chars_equal(t, "hr") {
        "\n---\n"
    } else {
        proof {
            reveal_strlit("");
        }
        ""
    }
}

/// The scanner run over all of `cs`.
fn scan_chars(cs: &Vec<char>) -> (out: Vec<char>)
    ensures
        out@ == scan(cs@).out,
{
    let mut out: Vec<char> = Vec::new();
    let mut in_tag = false;
    let mut in_entity = false;
    let mut entity: Vec<char> = Vec::new();
    let mut tag: Vec<char> = Vec::new();
    let mut reading_tag = false;
    assert(cs@.take(0) =~= Seq::<char>::empty());
    for i in 0..cs.len()
        invariant
            scan(cs@.take(i as int)) == (Scan {
                out: out@,
                in_tag,
                in_entity,
                entity: entity@,
                tag: tag@,
                reading_tag,
            }),
    {
        let ch = cs[i];
        assert(cs@.take(i + 1).drop_last() =~= cs@.take(i as int));
        assert(cs@.take(i + 1).last() == ch);
        if in_entity {
            if ch == ';' {
                in_entity = false;
                let t = entity_str(&entity);
                append_str(&mut out, t);
                entity = Vec::new();
                assert(entity@ =~= Seq::<char>::empty());
            } else {
                entity.push(ch);
            }
        } else if ch == '&' {
            in_entity = true;
        } else if ch == '<' {
            in_tag = true;
            reading_tag = true;
            tag = Vec::new();
            assert(tag@ =~= Seq::<char>::empty());
        } else if ch == '>' {
            in_tag = false;
            reading_tag = false;
            let tn = lower_chars(&tag);
            let t = tag_str(&tn);
            append_str(&mut out, t);
        } else if in_tag {
            if reading_tag {
                if alphanumeric(ch) {
                    tag.push(ch);
                } else {
                    reading_tag = false;
                }
            }
        } else if white_space(ch) {
            let n = out.len();
            if !(n > 0 && (out[n - 1] == ' ' || out[n - 1] == '\n' || out[n - 1] == '\t')) {
                out.push(' ');
            }
        } else {
            out.push(ch);
        }
    }
    assert(cs@.take(cs.len() as int) =~= cs@);
    out
}

proof fn lemma_split_nonempty(s: Seq<char>)
    ensures
        split_lines(s).len() >= 1,
    decreases s.len(),
{
    if s.len() > 0 {
        lemma_split_nonempty(s.drop_last());
    }
}

/// `s` cut at its line breaks.
fn split_chars(s: &Vec<char>) -> (lines: Vec<Vec<char>>)
    ensures
        views(lines@) == split_lines(s@),
{
    let mut lines: Vec<Vec<char>> = Vec::new();
    lines.push(Vec::new());
    assert(s@.take(0) =~= Seq::<char>::empty());
    assert(views(lines@) =~= split_lines(s@.take(0)));
    for i in 0..s.len()
        invariant
            views(lines@) == split_lines(s@.take(i as int)),
            lines.len() >= 1,
    {
        let c = s[i];
        assert(s@.take(i + 1).drop_last() =~= s@.take(i as int));
        proof {
            lemma_split_nonempty(s@.take(i as int));
        }
        let ghost before = views(lines@);
        if c == '\n' {
            lines.push(Vec::new());
            assert(views(lines@) =~= before.push(Seq::empty()));
        } else {
            let mut last = lines.pop().unwrap();
            last.push(c);
            lines.push(last);
            assert(views(lines@) =~= before.update(before.len() - 1, before.last().push(c)));
        }
    }
    assert(s@.take(s.len() as int) =~= s@);
    lines
}

/// Lines joined with line breaks.
fn join_chars(l: &Vec<Vec<char>>) -> (r: Vec<char>)
    ensures
        r@ == join_lines(views(l@)),
{
    let mut r: Vec<char> = Vec::new();
    assert(views(l@.take(0)) =~= Seq::<Seq<char>>::empty());
    for i in 0..l.len()
        invariant
            r@ == join_lines(views(l@.take(i as int))),
    {
        let ghost prev = r@;
        if i > 0 {
            r.push('\n');
        }
        let line = &l[i];
        for j in 0..line.len()
            invariant
                r@ == (if i > 0 { prev + seq!['\n'] } else { prev }) + line@.take(j as int),
        {
            r.push(line[j]);
            assert(line@.take(j + 1) =~= line@.take(j as int).push(line@[j as int]));
        }
        assert(line@.take(line.len() as int) =~= line@);
        assert(views(l@.take(i + 1)).drop_last() =~= views(l@.take(i as int)));
        assert(views(l@.take(i + 1)).last() == line@);
        if i == 0 {
            assert(views(l@.take(1)) =~= seq![line@]);
            assert(prev =~= Seq::<char>::empty());
            assert(r@ =~= line@);
        }
    }
    assert(l@.take(l.len() as int) =~= l@);
    r
}

/// Every line trimmed.
fn trim_lines(l: &Vec<Vec<char>>) -> (r: Vec<Vec<char>>)
    ensures
        views(r@) == trim_each(views(l@)),
{
    let mut r: Vec<Vec<char>> = Vec::new();
    for i in 0..l.len()
        invariant
            r.len() == i,
            forall|j: int| 0 <= j < i ==> r@[j]@ == trim(l@[j]@),
    {
        let t = trim_chars(&l[i]);
        r.push(t);
    }
    assert(views(r@) =~= trim_each(views(l@)));
    r
}

/// The plain text of an HTML fragment: tags are dropped; `<br>`, `<p>`,
/// `<div>`, `<h1>`..`<h6>`, `<li>` and `<tr>` start a line, `<td>` and `<th>`
/// add a tab, `<hr>` adds a rule line; `&nbsp;` `&ensp;` `&emsp;` `&lt;`
/// `&gt;` `&amp;` `&quot;` `&copy;` are decoded and other entities dropped;
/// white space collapses to one space; each line, and the whole, is trimmed.
pub fn html_to_text(html: &str) -> (r: String)
    ensures
        r@ == html_text(html@),
{
    let cs = chars_of(html);
    let out = scan_chars(&cs);
    let lines = split_chars(&out);
    let trimmed = trim_lines(&lines);
    let joined = join_chars(&trimmed);
    let t = trim_chars(&joined);
    string_of(&t)
}

} // verus!
