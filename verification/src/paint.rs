//! Coloured text.
//!
//! Whether colours are written at all is decided outside: by the environment
//! and by whether a terminal is there. So a painted text is either the text as
//! it is, or the text between the codes that switch its style on and off. The
//! decision is one setting of the process, which nothing here changes; what is
//! said of a painted text holds as long as nobody changes it while the text is
//! being written.
use colored::Colorize;
use vstd::prelude::*;

verus! {

/// The code that switches every style off.
pub open spec fn reset() -> Seq<char> {
    "\x1B[0m"@
}

/// The code that switches the styles `codes` on.
pub open spec fn style(codes: Seq<char>) -> Seq<char> {
    "\x1B["@ + codes + "m"@
}

/// `text` with the style `on` switched on again after every code in it that
/// switches styles off.
pub open spec fn restyled(text: Seq<char>, on: Seq<char>) -> Seq<char>
    decreases text.len(),
{
    if text.len() < 4 {
        text
    } else if text.take(4) == reset() {
        reset() + on + restyled(text.skip(4), on)
    } else {
        seq![text[0]] + restyled(text.skip(1), on)
    }
}

/// `text` in the style `codes`.
pub open spec fn styled(text: Seq<char>, codes: Seq<char>) -> Seq<char> {
    style(codes) + restyled(text, style(codes)) + reset()
}

/// `painted` is `text` in the style `codes`, with or without the colours.
pub open spec fn is_paint(painted: Seq<char>, text: Seq<char>, codes: Seq<char>) -> bool {
    painted == text || painted == styled(text, codes)
}

/// Text in bright red: `Colorize::bright_red`, written out. The result is the
/// text itself or the text styled with code 91, and which of the two is not
/// said, since the environment decides it.
#[verifier::external_body]
pub(crate) fn bright_red(text: &str) -> (painted: String)
    ensures
        is_paint(painted@, text@, "91"@),
{
    text.bright_red().to_string()
}

/// Bold text in bright red: `Colorize::bright_red`, then `bold`, written out.
/// The result is the text itself or the text styled with codes 1 and 91, and
/// which of the two is not said, since the environment decides it.
#[verifier::external_body]
pub(crate) fn bright_red_bold(text: &str) -> (painted: String)
    ensures
        is_paint(painted@, text@, "1;91"@),
{
    text.bright_red().bold().to_string()
}

/// Bold text: `Colorize::bold`, written out. The result is the text itself or
/// the text styled with code 1, and which of the two is not said, since the
/// environment decides it.
#[verifier::external_body]
pub(crate) fn bold(text: &str) -> (painted: String)
    ensures
        is_paint(painted@, text@, "1"@),
{
    text.bold().to_string()
}

/// Bold text in bright white: `Colorize::bright_white`, then `bold`, written
/// out. The result is the text itself or the text styled with codes 1 and 97,
/// and which of the two is not said, since the environment decides it.
#[verifier::external_body]
pub(crate) fn bright_white_bold(text: &str) -> (painted: String)
    ensures
        is_paint(painted@, text@, "1;97"@),
{
    text.bright_white().bold().to_string()
}

/// Bold text in bright cyan: `Colorize::bright_cyan`, then `bold`, written out.
/// The result is the text itself or the text styled with codes 1 and 96, and
/// which of the two is not said, since the environment decides it.
#[verifier::external_body]
pub(crate) fn bright_cyan_bold(text: &str) -> (painted: String)
    ensures
        is_paint(painted@, text@, "1;96"@),
{
    text.bright_cyan().bold().to_string()
}

/// Text in yellow: `Colorize::yellow`, written out. The result is the text
/// itself or the text styled with code 33, and which of the two is not said,
/// since the environment decides it.
#[verifier::external_body]
pub(crate) fn yellow(text: &str) -> (painted: String)
    ensures
        is_paint(painted@, text@, "33"@),
{
    text.yellow().to_string()
}

/// Bold text in yellow: `Colorize::yellow`, then `bold`, written out. The result
/// is the text itself or the text styled with codes 1 and 33, and which of the
/// two is not said, since the environment decides it.
#[verifier::external_body]
pub(crate) fn yellow_bold(text: &str) -> (painted: String)
    ensures
        is_paint(painted@, text@, "1;33"@),
{
    text.yellow().bold().to_string()
}

/// Text in green: `Colorize::green`, written out. The result is the text itself
/// or the text styled with code 32, and which of the two is not said, since the
/// environment decides it.
#[verifier::external_body]
pub(crate) fn green(text: &str) -> (painted: String)
    ensures
        is_paint(painted@, text@, "32"@),
{
    text.green().to_string()
}

} // verus!
