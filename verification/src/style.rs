//! Colours for the terminal, from the `colored` crate.
//!
//! Whether `colored` adds escape codes depends on the environment and on its
//! process-wide override. So a styled text is one of two: the text itself,
//! or the text between the escape codes of its style.

use crate::text::replace_all;
use colored::Colorize;
use vstd::prelude::*;

verus! {

/// The escape code that ends every style.
pub const RESET: &'static str = "\x1B[0m";

/// The code of green letters.
pub const GREEN: &'static str = "32";

/// The code of yellow letters.
pub const YELLOW: &'static str = "33";

/// The code of cyan letters.
pub const CYAN: &'static str = "36";

/// The code of dimmed letters.
pub const DIMMED: &'static str = "2";

/// The escape code that starts the style with the given code.
pub open spec fn style_start(code: Seq<char>) -> Seq<char> {
    "\x1B["@ + code + "m"@
}

/// A text between the escape codes of a style. Where the text itself ends
/// a style, the style is started again behind that.
pub open spec fn coloured(text: Seq<char>, code: Seq<char>) -> Seq<char> {
    style_start(code) + replace_all(text, RESET@, RESET@ + style_start(code)) + RESET@
}

/// Whether `styled` is `text` in the style with the given code, with or
/// without colours.
pub open spec fn styled_as(styled: Seq<char>, text: Seq<char>, code: Seq<char>) -> bool {
    styled == text || styled == coloured(text, code)
}

/// `Colorize::green`, rendered to a string: the text as it is where colours
/// are off, else between `ESC[32m` and `ESC[0m`.
#[verifier::external_body]
pub(crate) fn green(text: &str) -> (styled: String)
    ensures
        styled_as(styled@, text@, GREEN@),
{
    text.green().to_string()
}

/// `Colorize::yellow`, rendered to a string: the text as it is where colours
/// are off, else between `ESC[33m` and `ESC[0m`.
#[verifier::external_body]
pub(crate) fn yellow(text: &str) -> (styled: String)
    ensures
        styled_as(styled@, text@, YELLOW@),
{
    text.yellow().to_string()
}

/// `Colorize::cyan`, rendered to a string: the text as it is where colours
/// are off, else between `ESC[36m` and `ESC[0m`.
#[verifier::external_body]
pub(crate) fn cyan(text: &str) -> (styled: String)
    ensures
        styled_as(styled@, text@, CYAN@),
{
    text.cyan().to_string()
}

/// `Colorize::dimmed`, rendered to a string: the text as it is where colours
/// are off, else between `ESC[2m` and `ESC[0m`.
#[verifier::external_body]
pub(crate) fn dimmed(text: &str) -> (styled: String)
    ensures
        styled_as(styled@, text@, DIMMED@),
{
    text.dimmed().to_string()
}

} // verus!
