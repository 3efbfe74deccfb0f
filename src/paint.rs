//! Terminal styling through `yansi`. Whether a painted text carries its
//! escape codes depends on yansi's process-wide switch, so each contract
//! admits both outcomes.
use vstd::prelude::*;

verus! {

/// The escape code that starts struck-through text.
pub open spec fn strike_code() -> Seq<char> {
    seq!['\u{1b}', '[', '9', 'm']
}

/// The escape code that starts bold green text.
pub open spec fn bold_green_code() -> Seq<char> {
    seq!['\u{1b}', '[', '1', ';', '3', '2', 'm']
}

/// The escape code that resets all styles.
pub open spec fn reset_code() -> Seq<char> {
    seq!['\u{1b}', '[', '0', 'm']
}

/// Relies on yansi's `Paint::new(s).strikethrough()` shown through `Display`:
/// `s` unchanged while painting is disabled, else `s` between the
/// strikethrough code and the reset code.
#[verifier::external_body]
pub(crate) fn strikethrough(s: &str) -> (r: String)
    ensures
        r@ == s@ || r@ == strike_code() + s@ + reset_code(),
{
    yansi::Paint::new(s).strikethrough().to_string()
}

/// Relies on yansi's `Paint::green(s).bold()` shown through `Display`: `s`
/// unchanged while painting is disabled, else `s` between the bold green code
/// and the reset code.
#[verifier::external_body]
pub(crate) fn bold_green(s: &str) -> (r: String)
    ensures
        r@ == s@ || r@ == bold_green_code() + s@ + reset_code(),
{
    yansi::Paint::green(s).bold().to_string()
}

} // verus!
