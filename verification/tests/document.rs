use sheet_to_md::html_render;

#[test]
fn page_wraps_the_fragment() {
    let r = html_render("<p>hi</p>", "title", "body{color:red}").ok().unwrap();
    assert!(r.contains("<!DOCTYPE html>"));
    assert!(r.contains("hi"));
    assert!(r.contains("<style>"));
    assert!(r.contains("</html>"));
}

#[test]
fn title_is_html_escaped() {
    let r = html_render("<p>x</p>", "a<b&c", "s{}").ok().unwrap();
    assert!(r.contains("a&lt;b&amp;c"));
    assert!(!r.contains("a<b&c"));
}

#[test]
fn stylesheet_is_embedded() {
    let r = html_render("<p>x</p>", "t", ".markdown-body{margin:0}").ok().unwrap();
    assert!(r.contains(".markdown-body{margin:0}"));
}
