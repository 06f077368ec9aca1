//! The prompt of a request: whether it says anything, and how much of it
//! is shown in a log line.

use vstd::prelude::*;
use vstd::string::*;

verus! {

/// What is left of a text once the white space at its start and at its end
/// is taken away, as `str::trim` does it.
pub uninterp spec fn trimmed(text: Seq<char>) -> Seq<char>;

/// `str::trim`: the slice of `text` without leading and trailing white
/// space. The contract gives the result its name and claims nothing else.
#[verifier::external_body]
fn trim(text: &str) -> (r: &str)
    ensures
        r@ == trimmed(text@),
{
    text.trim()
}

/// Whether a prompt holds nothing but white space.
pub fn prompt_is_blank(prompt: &str) -> (r: bool)
    ensures
        r == (trimmed(prompt@).len() == 0),
{
    trim(prompt).is_empty()
}

/// How many characters of a prompt a log line shows.
pub const PREVIEW_CHARS: usize = 50;

/// The prompt as a log line shows it: whole, or cut after the first
/// characters with three dots in place of the rest.
pub open spec fn preview_of(prompt: Seq<char>) -> Seq<char> {
    if prompt.len() > PREVIEW_CHARS {
        prompt.subrange(0, PREVIEW_CHARS as int) + "..."@
    } else {
        prompt
    }
}

/// Computes [`preview_of`]. The cut falls between characters, never
/// inside one.
pub fn prompt_preview(prompt: &str) -> (r: String)
    ensures
        r@ == preview_of(prompt@),
{
    if prompt.unicode_len() > PREVIEW_CHARS {
        let mut shown: String = prompt.substring_char(0, PREVIEW_CHARS).to_owned();
        shown.append("...");
        shown
    } else {
        prompt.to_owned()
    }
}

/// `head` followed by `tail`.
pub fn joined(head: &str, tail: &str) -> (r: String)
    ensures
        r@ == head@ + tail@,
{
    let mut text: String = head.to_owned();
    text.append(tail);
    text
}

/// The numeral of one digit.
pub open spec fn digit_text(d: nat) -> Seq<char> {
    if d == 0 {
        "0"@
    } else if d == 1 {
        "1"@
    } else if d == 2 {
        "2"@
    } else if d == 3 {
        "3"@
    } else if d == 4 {
        "4"@
    } else if d == 5 {
        "5"@
    } else if d == 6 {
        "6"@
    } else if d == 7 {
        "7"@
    } else if d == 8 {
        "8"@
    } else {
        "9"@
    }
}

/// A number in decimal digits, without leading zeros.
pub open spec fn decimal_text(n: nat) -> Seq<char>
    decreases n,
{
    if n < 10 {
        digit_text(n)
    } else {
        decimal_text(n / 10) + digit_text(n % 10)
    }
}

/// Computes [`digit_text`].
fn digit(d: u64) -> (r: &'static str)
    requires
        d < 10,
    ensures
        r@ == digit_text(d as nat),
{
    if d == 0 {
        "0"
    } else if d == 1 {
        "1"
    } else if d == 2 {
        "2"
    } else if d == 3 {
        "3"
    } else if d == 4 {
        "4"
    } else if d == 5 {
        "5"
    } else if d == 6 {
        "6"
    } else if d == 7 {
        "7"
    } else if d == 8 {
        "8"
    } else {
        "9"
    }
}

/// Computes [`decimal_text`].
pub fn decimal(n: u64) -> (r: String)
    ensures
        r@ == decimal_text(n as nat),
    decreases n,
{
    if n < 10 {
        digit(n).to_owned()
    } else {
        let mut text: String = decimal(n / 10);
        text.append(digit(n % 10));
        text
    }
}

} // verus!
