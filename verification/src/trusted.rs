//! What the library takes on trust: functions of the standard library that
//! come without a contract, the Unicode tables behind them, and the
//! segmentation and regular-expression crates.
//!
//! Nothing in this file is proved. Each item names the function it stands
//! for and says what is believed of it.

use vstd::prelude::*;

verus! {

/// `String::push` appends one character to the end of the string.
pub assume_specification[ String::push ](s: &mut String, ch: char)
    ensures
        final(s)@ == old(s)@.push(ch),
;

/// The answer of `char::is_numeric` for `c`: whether `c` is in one of the
/// Unicode general categories `Nd`, `Nl` or `No`.
pub uninterp spec fn is_numeric_char(c: char) -> bool;

/// The answer of `char::is_uppercase` for `c`: whether `c` has the Unicode
/// derived property `Uppercase`.
pub uninterp spec fn is_uppercase_char(c: char) -> bool;

/// The answer of `char::is_alphabetic` for `c`: whether `c` has the Unicode
/// derived property `Alphabetic`.
pub uninterp spec fn is_alphabetic_char(c: char) -> bool;

/// The result of `str::to_lowercase` on the text `s`.
pub uninterp spec fn to_lowercase_text(s: Seq<char>) -> Seq<char>;

/// The number of extended grapheme clusters that
/// `UnicodeSegmentation::graphemes(_, true)` yields for the text `s`.
pub uninterp spec fn grapheme_count(s: Seq<char>) -> nat;

/// `char::is_numeric` is a function of the character alone.
pub assume_specification[ char::is_numeric ](c: char) -> (r: bool)
    ensures
        r == is_numeric_char(c),
;

/// `char::is_uppercase` is a function of the character alone.
pub assume_specification[ char::is_uppercase ](c: char) -> (r: bool)
    ensures
        r == is_uppercase_char(c),
;

/// `char::is_alphabetic` is a function of the character alone.
pub assume_specification[ char::is_alphabetic ](c: char) -> (r: bool)
    ensures
        r == is_alphabetic_char(c),
;

/// `str::to_lowercase` is a function of the text alone.
pub assume_specification[ str::to_lowercase ](s: &str) -> (r: String)
    ensures
        r@ == to_lowercase_text(s@),
;

/// What a regular expression with two capture groups finds in a text: the
/// texts of groups 1 and 2 of the leftmost match of `pattern` in `text`, as
/// the `regex` crate defines them, and `None` where the pattern does not
/// compile, nothing matches, or one of the two groups took no part.
pub uninterp spec fn regex_two_groups(pattern: Seq<char>, text: Seq<char>) -> Option<
    (Seq<char>, Seq<char>),
>;

/// The view of an optional pair of strings.
pub open spec fn opt_pair_text(p: Option<(String, String)>) -> Option<(Seq<char>, Seq<char>)> {
    match p {
        Some((a, b)) => Some((a@, b@)),
        None => None,
    }
}

/// Compiles `pattern` with `regex::Regex::new`, searches `text` with
/// `Regex::captures` and hands out the texts of groups 1 and 2 as
/// `Captures::get` gives them. Compiling and matching depend on the two
/// texts alone.
#[verifier::external_body]
pub(crate) fn capture_two_groups(pattern: &str, text: &str) -> (r: Option<(String, String)>)
    ensures
        opt_pair_text(r) == regex_two_groups(pattern@, text@),
{
    let re = regex::Regex::new(pattern).ok()?;
    let caps = re.captures(text)?;
    let first = caps.get(1)?;
    let second = caps.get(2)?;
    Some((first.as_str().to_string(), second.as_str().to_string()))
}

/// What a regular expression finds in a text: the texts of its successive
/// matches that do not overlap, from left to right, as the `regex` crate
/// defines them, and no match where the pattern does not compile.
pub uninterp spec fn regex_matches(pattern: Seq<char>, text: Seq<char>) -> Seq<Seq<char>>;

/// The views of a sequence of strings.
pub open spec fn strings_model(strings: Seq<String>) -> Seq<Seq<char>> {
    strings.map_values(|s: String| s@)
}

/// Compiles `pattern` with `regex::Regex::new` and collects the texts of
/// the matches that `Regex::find_iter` yields for `text`, in their order.
/// Compiling and matching depend on the two texts alone.
#[verifier::external_body]
pub(crate) fn find_all_matches(pattern: &str, text: &str) -> (r: Vec<String>)
    ensures
        strings_model(r@) == regex_matches(pattern@, text@),
{
    match regex::Regex::new(pattern) {
        Ok(re) => re.find_iter(text).map(|m| m.as_str().to_string()).collect(),
        Err(_) => Vec::new(),
    }
}

/// Counts the extended grapheme clusters of `s` with
/// `UnicodeSegmentation::graphemes`. The count is a function of the text
/// alone.
#[verifier::external_body]
pub(crate) fn count_graphemes(s: &str) -> (n: usize)
    ensures
        n == grapheme_count(s@),
{
    unicode_segmentation::UnicodeSegmentation::graphemes(s, true).count()
}

} // verus!
