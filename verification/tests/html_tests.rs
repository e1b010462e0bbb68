use heprint::html::html_to_text;

#[test]
fn test_basic_html() {
    let html = "<p>Hello</p><p>World</p>";
    assert_eq!(html_to_text(html), "Hello\nWorld");
}

#[test]
fn test_table() {
    let html = "<table><tr><th>A</th><th>B</th></tr><tr><td>1</td><td>2</td></tr></table>";
    assert_eq!(html_to_text(html), "A\tB\n1\t2");
}

#[test]
fn headings_cells_and_entities() {
    assert_eq!(html_to_text("<h2>A</h2><h2>B</h2>"), "A\nB");
    assert_eq!(html_to_text("<td class='x'>a</td><td>b</td>"), "a\tb");
    assert_eq!(html_to_text("a&amp;b&lt;&copy;&unknown;"), "a&b<(c)");
    assert_eq!(html_to_text("x<hr>y"), "x\n---\ny");
    assert_eq!(html_to_text("a   b\n\nc"), "a b c");
}
