use sheet_to_md::CellValue;
use sheet_to_md::md_santise;
use sheet_to_md::sanitize_text;
use sheet_to_md::usize_to_string;

#[test]
fn pipes_are_escaped() {
    assert_eq!(sanitize_text("a|b|c"), "a\\|b\\|c");
    assert_eq!(sanitize_text("|"), "\\|");
    assert_eq!(sanitize_text("no pipes"), "no pipes");
}

#[test]
fn double_cr_is_one_marker() {
    assert_eq!(sanitize_text("a\r\rb"), "a<br/>b");
}

#[test]
fn newline_and_cr_become_markers() {
    assert_eq!(sanitize_text("a\nb"), "a<br/>b");
    assert_eq!(sanitize_text("a\rb"), "a<br/>b");
    assert_eq!(sanitize_text("a\nb\rc"), "a<br/>b<br/>c");
}

#[test]
fn mixed_break_sequences() {
    assert_eq!(sanitize_text("x\r\r\n"), "x<br/><br/>");
    assert_eq!(sanitize_text("\r\n"), "<br/><br/>");
    assert_eq!(sanitize_text("\r\r\r"), "<br/><br/>");
    assert!(!sanitize_text("a\r\r\n\rb").contains('\r'));
    assert!(!sanitize_text("a\r\r\n\rb").contains('\n'));
}

#[test]
fn sanitized_output_has_no_unescaped_pipe() {
    let out = sanitize_text("x|y\\|z||");
    let chars: Vec<char> = out.chars().collect();
    for (i, c) in chars.iter().enumerate() {
        if *c == '|' {
            assert!(i > 0 && chars[i - 1] == '\\');
        }
    }
}

#[test]
fn cell_values_sanitize_to_their_string_form() {
    assert_eq!(md_santise(&CellValue::Empty), "");
    assert_eq!(md_santise(&CellValue::Text(String::from("a|b"))), "a\\|b");
    assert_eq!(md_santise(&CellValue::Number(String::from("3.5"))), "3.5");
    assert_eq!(md_santise(&CellValue::Boolean(true)), "true");
    assert_eq!(md_santise(&CellValue::Boolean(false)), "false");
    assert_eq!(md_santise(&CellValue::Error(String::from("#DIV/0!"))), "#DIV/0!");
}

#[test]
fn decimal_rendering() {
    assert_eq!(usize_to_string(0), "0");
    assert_eq!(usize_to_string(9), "9");
    assert_eq!(usize_to_string(10), "10");
    assert_eq!(usize_to_string(120), "120");
}
