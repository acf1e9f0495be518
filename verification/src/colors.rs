//! ANSI escape sequences for terminal styling.

use vstd::prelude::*;
use vstd::string::*;
use crate::text::str_eq;

verus! {

pub const RED: &'static str = "\x1b[31m";

pub const GREEN: &'static str = "\x1b[32m";

pub const YELLOW: &'static str = "\x1b[33m";

pub const BLUE: &'static str = "\x1b[34m";

pub const MAGENTA: &'static str = "\x1b[35m";

pub const CYAN: &'static str = "\x1b[36m";

pub const WHITE: &'static str = "\x1b[37m";

pub const BOLD: &'static str = "\x1b[1m";

pub const DIMMED: &'static str = "\x1b[2m";

pub const ITALIC: &'static str = "\x1b[3m";

pub const UNDERLINE: &'static str = "\x1b[4m";

pub const RESET: &'static str = "\x1b[0m";

/// `text` wrapped in the red escape and the reset escape.
pub fn red(text: &str) -> (r: String)
    ensures
        r@ == RED@ + text@ + RESET@,
{
    let mut s = String::from_str(RED);
    s.append(text);
    s.append(RESET);
    s
}

/// `text` wrapped in the green escape and the reset escape.
pub fn green(text: &str) -> (r: String)
    ensures
        r@ == GREEN@ + text@ + RESET@,
{
    let mut s = String::from_str(GREEN);
    s.append(text);
    s.append(RESET);
    s
}

/// The interactive prompt: a bold status star — green after success,
/// red after a failure — then the working directory in bold and a
/// dollar sign.
pub fn generate_prompt(previous_command_succeed: bool, working_directory: &str) -> (r: String)
    ensures
        r@ == BOLD@ + (if previous_command_succeed {
            GREEN@ + "*"@ + RESET@
        } else {
            RED@ + "*"@ + RESET@
        }) + " "@ + BOLD@ + working_directory@ + RESET@ + " $ "@,
{
    let indicator = if previous_command_succeed {
        green("*")
    } else {
        red("*")
    };
    let mut s = String::from_str(BOLD);
    s.append(indicator.as_str());
    s.append(" ");
    s.append(BOLD);
    s.append(working_directory);
    s.append(RESET);
    s.append(" $ ");
    s
}

/// The escape sequence of a recognised `--<stylename>` flag; an
/// unrecognised flag contributes no styling.
pub open spec fn spec_style_code(a: Seq<char>) -> Seq<char> {
    if a == "--red"@ {
        RED@
    } else if a == "--green"@ {
        GREEN@
    } else if a == "--yellow"@ {
        YELLOW@
    } else if a == "--blue"@ {
        BLUE@
    } else if a == "--magenta"@ {
        MAGENTA@
    } else if a == "--cyan"@ {
        CYAN@
    } else if a == "--white"@ {
        WHITE@
    } else if a == "--bold"@ {
        BOLD@
    } else if a == "--dimmed"@ {
        DIMMED@
    } else if a == "--italic"@ {
        ITALIC@
    } else if a == "--underline"@ {
        UNDERLINE@
    } else {
        Seq::empty()
    }
}

/// The escape sequence named by a style flag.
pub fn style_code(arg: &str) -> (r: &'static str)
    ensures
        r@ == spec_style_code(arg@),
{
    proof {
        reveal_strlit("");
    }
    if str_eq(arg, "--red") {
        RED
    } else if str_eq(arg, "--green") {
        GREEN
    } else if str_eq(arg, "--yellow") {
        YELLOW
    } else if str_eq(arg, "--blue") {
        BLUE
    } else if str_eq(arg, "--magenta") {
        MAGENTA
    } else if str_eq(arg, "--cyan") {
        CYAN
    } else if str_eq(arg, "--white") {
        WHITE
    } else if str_eq(arg, "--bold") {
        BOLD
    } else if str_eq(arg, "--dimmed") {
        DIMMED
    } else if str_eq(arg, "--italic") {
        ITALIC
    } else if str_eq(arg, "--underline") {
        UNDERLINE
    } else {
        proof {
            assert(""@ =~= Seq::<char>::empty());
        }
        ""
    }
}

} // verus!
