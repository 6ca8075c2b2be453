use vstd::prelude::*;

verus! {

/// What `str::trim` makes of a text.
pub uninterp spec fn trimmed(s: Seq<char>) -> Seq<char>;

/// What `str::to_uppercase` makes of a text.
pub uninterp spec fn uppercased(s: Seq<char>) -> Seq<char>;

/// Relies on `str::trim`: the text without leading and trailing white
/// space, which depends on the characters alone.
#[verifier::external_body]
fn trim_text(s: &str) -> (r: &str)
    ensures
        r@ == trimmed(s@),
{
    s.trim()
}

/// Relies on `str::to_uppercase`: the Unicode uppercase mapping of the
/// text, which depends on the characters alone.
#[verifier::external_body]
fn uppercase_text(s: &str) -> (r: String)
    ensures
        r@ == uppercased(s@),
{
    s.to_uppercase()
}

/// An ASCII letter, either case.
pub open spec fn is_ascii_letter(c: char) -> bool {
    ('A' <= c && c <= 'Z') || ('a' <= c && c <= 'z')
}

/// The letter a cleaned-up entry stands for: the entry must be a single
/// byte, and that byte a letter.
pub open spec fn letter_of(s: Seq<char>) -> Option<char> {
    if s.len() == 1 && is_ascii_letter(s[0]) {
        Some(s[0])
    } else {
        None
    }
}

/// Accepts an entry that is exactly one ASCII letter.
pub fn letter_from_cleaned(s: &str) -> (r: Option<char>)
    ensures
        r == letter_of(s@),
{
    if s.unicode_len() != 1 {
        return None;
    }
    let c = s.get_char(0);
    if ('A' <= c && c <= 'Z') || ('a' <= c && c <= 'z') {
        Some(c)
    } else {
        None
    }
}

/// Reads a guess from a line typed by the player: surrounding white space is
/// dropped, the rest is put in upper case and must be a single letter.
pub fn parse_guess(line: &str) -> (r: Option<char>)
    ensures
        r == letter_of(uppercased(trimmed(line@))),
{
    let cleaned = uppercase_text(trim_text(line));
    letter_from_cleaned(cleaned.as_str())
}

} // verus!
