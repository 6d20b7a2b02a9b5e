//! Text in colour, for terminals that show it.

use colored::Colorize;
use vstd::prelude::*;

verus! {

/// What puts a terminal back to plain text.
pub open spec fn reset() -> Seq<char> {
    seq!['\u{1b}', '[', '0', 'm']
}

/// What sets a terminal to the codes `codes`.
pub open spec fn set_codes(codes: Seq<char>) -> Seq<char> {
    seq!['\u{1b}', '['] + codes + seq!['m']
}

/// `s` with the codes `codes` set again wherever `s` goes back to plain text.
pub open spec fn kept_up(s: Seq<char>, codes: Seq<char>) -> Seq<char>
    decreases s.len(),
{
    if s.len() == 0 {
        s
    } else if reset().is_prefix_of(s) {
        reset() + set_codes(codes) + kept_up(s.skip(4), codes)
    } else {
        seq![s[0]] + kept_up(s.skip(1), codes)
    }
}

/// `s` as a terminal shows it with the codes `codes`.
pub open spec fn in_codes(s: Seq<char>, codes: Seq<char>) -> Seq<char> {
    set_codes(codes) + kept_up(s, codes) + reset()
}

/// Whether `shown` is `s`, either plain or with the codes `codes`.
pub open spec fn painted(s: Seq<char>, codes: Seq<char>, shown: Seq<char>) -> bool {
    shown == s || shown == in_codes(s, codes)
}

/// `colored::Colorize::bold`, displayed. Whether colours are shown is up to the environment and
/// to `colored::control`, so the text comes back plain or with the code of the style, as long as
/// nobody switches colours on or off meanwhile. The same holds of the functions below, which
/// differ in the codes.
#[verifier::external_body]
pub(crate) fn bold(s: &str) -> (shown: String)
    ensures
        painted(s@, "1"@, shown@),
{
    s.bold().to_string()
}

/// `colored::Colorize::dimmed`, displayed.
#[verifier::external_body]
pub(crate) fn dimmed(s: &str) -> (shown: String)
    ensures
        painted(s@, "2"@, shown@),
{
    s.dimmed().to_string()
}

/// `colored::Colorize::red`, displayed.
#[verifier::external_body]
pub(crate) fn red(s: &str) -> (shown: String)
    ensures
        painted(s@, "31"@, shown@),
{
    s.red().to_string()
}

/// `colored::Colorize::green`, displayed.
#[verifier::external_body]
pub(crate) fn green(s: &str) -> (shown: String)
    ensures
        painted(s@, "32"@, shown@),
{
    s.green().to_string()
}

/// `colored::Colorize::yellow`, displayed.
#[verifier::external_body]
pub(crate) fn yellow(s: &str) -> (shown: String)
    ensures
        painted(s@, "33"@, shown@),
{
    s.yellow().to_string()
}

/// `colored::Colorize::cyan`, displayed.
#[verifier::external_body]
pub(crate) fn cyan(s: &str) -> (shown: String)
    ensures
        painted(s@, "36"@, shown@),
{
    s.cyan().to_string()
}

/// `colored::Colorize::red` and `bold`, displayed; the code of the style stands first.
#[verifier::external_body]
pub(crate) fn bold_red(s: &str) -> (shown: String)
    ensures
        painted(s@, "1;31"@, shown@),
{
    s.red().bold().to_string()
}

/// `colored::Colorize::green` and `bold`, displayed.
#[verifier::external_body]
pub(crate) fn bold_green(s: &str) -> (shown: String)
    ensures
        painted(s@, "1;32"@, shown@),
{
    s.green().bold().to_string()
}

/// `colored::Colorize::yellow` and `bold`, displayed.
#[verifier::external_body]
pub(crate) fn bold_yellow(s: &str) -> (shown: String)
    ensures
        painted(s@, "1;33"@, shown@),
{
    s.yellow().bold().to_string()
}

/// `colored::Colorize::cyan` and `bold`, displayed.
#[verifier::external_body]
pub(crate) fn bold_cyan(s: &str) -> (shown: String)
    ensures
        painted(s@, "1;36"@, shown@),
{
    s.cyan().bold().to_string()
}

/// Text without escape characters is shown as it is, or between the codes and what puts the
/// terminal back.
pub proof fn painting_leaves_the_text_alone(s: Seq<char>, codes: Seq<char>, shown: Seq<char>)
    requires
        !s.contains('\u{1b}'),
        painted(s, codes, shown),
    ensures
        shown == s || shown == seq!['\u{1b}', '['] + codes + seq!['m'] + s + seq![
            '\u{1b}',
            '[',
            '0',
            'm',
        ],
{
    nothing_to_keep_up(s, codes);
}

/// Text without escape characters needs nothing set again.
proof fn nothing_to_keep_up(s: Seq<char>, codes: Seq<char>)
    requires
        !s.contains('\u{1b}'),
    ensures
        kept_up(s, codes) == s,
    decreases s.len(),
{
    if s.len() > 0 {
        let rest = s.skip(1);
        assert(!rest.contains('\u{1b}')) by {
            if rest.contains('\u{1b}') {
                let j = choose|j: int| 0 <= j < rest.len() && rest[j] == '\u{1b}';
                assert(s[j + 1] == '\u{1b}');
            }
        }
        assert(s.contains(s[0]));
        if reset().is_prefix_of(s) {
            assert(s.subrange(0, 4)[0] == '\u{1b}');
            assert(s[0] == '\u{1b}');
        }
        nothing_to_keep_up(rest, codes);
        assert(seq![s[0]] + rest =~= s);
    }
}

/// What puts the terminal back within a text has the codes set again behind it; every other
/// character is shown as it is.
pub proof fn codes_are_set_again_after_a_reset(s: Seq<char>, codes: Seq<char>)
    ensures
        kept_up(Seq::empty(), codes).len() == 0,
        kept_up(seq!['\u{1b}', '[', '0', 'm'] + s, codes) == seq!['\u{1b}', '[', '0', 'm'] + (
        seq!['\u{1b}', '['] + codes + seq!['m']) + kept_up(s, codes),
        s.len() > 0 && !seq!['\u{1b}', '[', '0', 'm'].is_prefix_of(s) ==> kept_up(s, codes)
            == seq![s[0]] + kept_up(s.skip(1), codes),
{
    let longer = reset() + s;
    assert(longer.subrange(0, 4) =~= reset());
    assert(longer.skip(4) =~= s);
}

/// Text is shown as it is, or with the codes set before it and again within it, and with the
/// terminal put back behind it.
pub proof fn text_is_plain_or_painted(s: Seq<char>, codes: Seq<char>, shown: Seq<char>)
    requires
        painted(s, codes, shown),
    ensures
        shown == s || shown == seq!['\u{1b}', '['] + codes + seq!['m'] + kept_up(s, codes) + seq![
            '\u{1b}',
            '[',
            '0',
            'm',
        ],
{
}

} // verus!
