//! Markup formatting: paint, buttonize, line composition, padding.

use bardata::markup::{paint, buttonize, get_formatted_string, join_strings, time_string};

#[test]
fn paint_foreground_wraps_and_resets() {
    let r = paint("X", "#ff0000", "F");
    assert_eq!(r, "%{F#ff0000}X%{F#f8f6f2}");
    assert!(r.starts_with("%{F#ff0000}"));
    assert!(r.contains('X'));
    assert!(r.ends_with("%{F#f8f6f2}"));
}

#[test]
fn paint_background_resets_to_background() {
    assert_eq!(paint("txt", "#45413b", "B"), "%{B#45413b}txt%{B#121212}");
}

#[test]
fn paint_underline_wraps_in_underline_markers() {
    assert_eq!(
        paint("u", "#ffa724", "U"),
        "%{U#ffa724}%{+u}u%{-u}%{U#121212}"
    );
}

#[test]
fn paint_any_color_resets_to_text_color() {
    for color in ["#000000", "#ffffff", "#123abc"] {
        let r = paint("hello", color, "F");
        assert!(r.ends_with("%{F#f8f6f2}"));
        assert!(r.starts_with(&format!("%{{F{}}}", color)));
    }
}

#[test]
fn buttonize_wraps_in_click_region() {
    assert_eq!(
        buttonize(" 2 ", "workspace 2"),
        "%{A:workspace 2:} 2 %{A}"
    );
}

#[test]
fn formatted_line_concatenates_columns() {
    let left = vec![String::from("A")];
    let center: Vec<String> = vec![];
    let right = vec![String::from("B"), String::from("C")];
    let line = get_formatted_string(&left, &center, &right);
    assert_eq!(line, "%{l}A%{c}%{r}B C ");
}

#[test]
fn formatted_line_empty_columns_only_markers() {
    let line = get_formatted_string(&vec![], &vec![], &vec![]);
    assert_eq!(line, "%{l}%{c}%{r} ");
}

#[test]
fn join_strings_separates_fragments() {
    let v = vec![String::from("a"), String::from("b"), String::from("c")];
    assert_eq!(join_strings(&v, " "), "a b c");
    assert_eq!(join_strings(&vec![], " "), "");
    assert_eq!(join_strings(&vec![String::from("x")], " "), "x");
}

#[test]
fn time_string_pads_single_digits() {
    assert_eq!(time_string(0), "00");
    assert_eq!(time_string(9), "09");
    assert_eq!(time_string(10), "10");
    assert_eq!(time_string(59), "59");
}
