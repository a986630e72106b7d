//! Terminal styling through the `colored` crate.
//!
//! Whether `colored` actually emits escape sequences depends on the
//! environment (a tty check and a handful of environment variables), so the
//! contracts here state only what holds of every outcome: the painted text
//! is the input, possibly between a style prefix and the reset sequence.

use colored::Colorize;
use vstd::prelude::*;

verus! {

/// The escape character that starts a terminal style sequence.
pub open spec fn esc_char() -> char {
    '\u{1b}'
}

/// `s` holds no escape character, so styling keeps it verbatim.
pub open spec fn esc_free(s: Seq<char>) -> bool {
    forall|i: int| 0 <= i < s.len() ==> s[i] != esc_char()
}

/// `r` is `s` with some (possibly empty) text before and after it.
pub open spec fn wrapped(s: Seq<char>, r: Seq<char>) -> bool {
    exists|pre: Seq<char>, post: Seq<char>| r == pre + s + post
}

/// Relies on `Colorize::red` and `ColoredString`'s `Display` impl: the
/// rendered text is the input itself when colours are off, and otherwise
/// the input between a style prefix and the reset sequence; the input is
/// kept verbatim as long as it holds no escape character of its own.
#[verifier::external_body]
pub(crate) fn paint_red(s: &str) -> (r: String)
    ensures
        esc_free(s@) ==> wrapped(s@, r@),
{
    format!("{}", s.red())
}

/// Relies on `Colorize::bold`, `Colorize::red` and `ColoredString`'s
/// `Display` impl, exactly as `paint_red` does.
#[verifier::external_body]
pub(crate) fn paint_bold_red(s: &str) -> (r: String)
    ensures
        esc_free(s@) ==> wrapped(s@, r@),
{
    format!("{}", s.bold().red())
}

/// Relies on `Colorize::bold`, `Colorize::green` and `ColoredString`'s
/// `Display` impl, exactly as `paint_red` does.
#[verifier::external_body]
pub(crate) fn paint_bold_green(s: &str) -> (r: String)
    ensures
        esc_free(s@) ==> wrapped(s@, r@),
{
    format!("{}", s.bold().green())
}

/// Relies on `Colorize::bold`, `Colorize::cyan` and `ColoredString`'s
/// `Display` impl, exactly as `paint_red` does.
#[verifier::external_body]
pub(crate) fn paint_bold_cyan(s: &str) -> (r: String)
    ensures
        esc_free(s@) ==> wrapped(s@, r@),
{
    format!("{}", s.bold().cyan())
}

} // verus!
