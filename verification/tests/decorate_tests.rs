use cli_utils::AnsiColor;
use cli_utils::AnsiStyle;
use cli_utils::clear_decoration;
use cli_utils::decorate;
use cli_utils::decorate_color;
use cli_utils::decorate_multiple;
use cli_utils::decorate_style;

#[test]
fn clear_decoration_removes_escape_sequences() {
    let s = "\x1B[31mred\x1B[0m and plain".to_string();
    assert_eq!(clear_decoration(s), "red and plain");
}

#[test]
fn clear_decoration_keeps_plain_text() {
    assert_eq!(clear_decoration("plain".to_string()), "plain");
    assert_eq!(clear_decoration(String::new()), "");
}

#[test]
fn clear_decoration_swallows_unterminated_escape() {
    let s = "ab\x1B[31".to_string();
    assert_eq!(clear_decoration(s), "ab");
}

#[test]
fn decorate_color_wraps_cleared_text() {
    let out = decorate_color("hi".to_string(), AnsiColor::Red);
    assert_eq!(out, "\x1B[31mhi\x1B[0m");
    // an already decorated string is cleared first
    let out2 = decorate_color("\x1B[32mhi\x1B[0m".to_string(), AnsiColor::Blue);
    assert_eq!(out2, "\x1B[34mhi\x1B[0m");
}

#[test]
fn decorate_style_wraps_cleared_text() {
    let out = decorate_style("hi".to_string(), AnsiStyle::Bold);
    assert_eq!(out, "\x1B[1mhi\x1B[0m");
    let out2 = decorate_style("hi".to_string(), AnsiStyle::Underline);
    assert_eq!(out2, "\x1B[4mhi\x1B[0m");
    let out3 = decorate_style("hi".to_string(), AnsiStyle::Strikethrough);
    assert_eq!(out3, "\x1B[9mhi\x1B[0m");
}

#[test]
fn decorate_prepends_style_to_color() {
    let out = decorate("hi".to_string(), AnsiColor::Green, AnsiStyle::Bold);
    assert_eq!(out, "\x1B[1m\x1B[32mhi\x1B[0m");
}

#[test]
fn decorate_multiple_prepends_each_style() {
    let out = decorate_multiple(
        "hi".to_string(),
        AnsiColor::Cyan,
        vec![AnsiStyle::Bold, AnsiStyle::Underline],
    );
    assert_eq!(out, "\x1B[4m\x1B[1m\x1B[36mhi\x1B[0m");
    let none = decorate_multiple("hi".to_string(), AnsiColor::Cyan, Vec::new());
    assert_eq!(none, "\x1B[36mhi\x1B[0m");
}
