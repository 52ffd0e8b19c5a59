//! The text that goes to the terminal: a message, optionally in colour.

use vstd::prelude::*;
use vstd::string::*;
use crate::text::text_eq;

verus! {

/// What switches the colour back to the terminal's default.
pub const COLOR_RESET: &'static str = "\x1B[0m";

/// The escape sequence that switches to a colour, for the colours that have
/// one.
pub open spec fn color_code_of(name: Seq<char>) -> Option<Seq<char>> {
    if name == "red"@ {
        Some("\x1B[1;31m"@)
    } else if name == "green"@ {
        Some("\x1B[1;32m"@)
    } else if name == "yellow"@ {
        Some("\x1B[1;33m"@)
    } else if name == "cyan"@ {
        Some("\x1B[1;36m"@)
    } else {
        None
    }
}

/// The escape sequence that switches to the colour of this name.
pub fn color_code(name: &str) -> (code: Option<&'static str>)
    ensures
        match code {
            Some(c) => color_code_of(name@) == Some(c@),
            None => color_code_of(name@) is None,
        },
{
    if text_eq(name, "red") {
        Some("\x1B[1;31m")
    } else if text_eq(name, "green") {
        Some("\x1B[1;32m")
    } else if text_eq(name, "yellow") {
        Some("\x1B[1;33m")
    } else if text_eq(name, "cyan") {
        Some("\x1B[1;36m")
    } else {
        None
    }
}

/// What a message looks like on the terminal: the colour's escape sequence
/// if the colour is known, the message, a line feed if one is asked for, and
/// the reset sequence whenever a colour was named, known or not.
pub open spec fn terminal_text(output: Seq<char>, newline: bool, color: Option<Seq<char>>) -> Seq<char> {
    let start = match color {
        Some(name) => match color_code_of(name) {
            Some(code) => code,
            None => Seq::empty(),
        },
        None => Seq::empty(),
    };
    let end = if newline {
        "\n"@
    } else {
        Seq::empty()
    };
    let reset = if color is Some {
        COLOR_RESET@
    } else {
        Seq::empty()
    };
    start + output + end + reset
}

/// The name behind an optional colour, as characters.
pub open spec fn color_view(color: Option<&str>) -> Option<Seq<char>> {
    match color {
        Some(name) => Some(name@),
        None => None,
    }
}

/// Lays out a message for the terminal. The caller writes the text.
pub fn terminal_write(output: &str, newline: bool, color: Option<&str>) -> (text: String)
    ensures
        text@ == terminal_text(output@, newline, color_view(color)),
{
    let mut text: String = String::new();
    let ghost start: Seq<char> = match color_view(color) {
        Some(name) => match color_code_of(name) {
            Some(code) => code,
            None => Seq::empty(),
        },
        None => Seq::empty(),
    };
    match color {
        Some(name) => {
            match color_code(name) {
                Some(code) => {
                    text.append(code);
                },
                None => {},
            }
        },
        None => {},
    }
    assert(text@ =~= start);
    text.append(output);
    if newline {
        text.append("\n");
    }
    if color.is_some() {
        text.append(COLOR_RESET);
    }
    proof {
        assert(text@ =~= terminal_text(output@, newline, color_view(color)));
    }
    text
}

} // verus!
