use gmodpatchtool::terminal::{color_code, terminal_write, COLOR_RESET};

#[test]
fn plain_message_is_the_message() {
    assert_eq!(terminal_write("hello", false, None), "hello");
    assert_eq!(terminal_write("hello", true, None), "hello\n");
    assert_eq!(terminal_write("", true, None), "\n");
}

#[test]
fn coloured_message_is_wrapped_in_escapes() {
    assert_eq!(terminal_write("bad", true, Some("red")), "\x1B[1;31mbad\n\x1B[0m");
    assert_eq!(terminal_write("good", false, Some("green")), "\x1B[1;32mgood\x1B[0m");
    assert_eq!(terminal_write("hm", true, Some("yellow")), "\x1B[1;33mhm\n\x1B[0m");
    assert_eq!(terminal_write("about", true, Some("cyan")), "\x1B[1;36mabout\n\x1B[0m");
}

#[test]
fn unknown_colour_still_resets() {
    assert_eq!(terminal_write("x", false, Some("purple")), "x\x1B[0m");
    assert_eq!(terminal_write("x", true, Some("")), "x\n\x1B[0m");
}

#[test]
fn four_colours_are_known() {
    assert_eq!(color_code("red"), Some("\x1B[1;31m"));
    assert_eq!(color_code("green"), Some("\x1B[1;32m"));
    assert_eq!(color_code("yellow"), Some("\x1B[1;33m"));
    assert_eq!(color_code("cyan"), Some("\x1B[1;36m"));
    assert_eq!(color_code("Red"), None);
    assert_eq!(color_code("blue"), None);
    assert_eq!(COLOR_RESET, "\x1B[0m");
}
