//! The text heuristics that the heading and the list classifiers share.
//!
//! All lengths are lengths in bytes of the UTF-8 form of a text.

use vstd::prelude::*;
use crate::scan::{
    byte_len_of, char_is_ascii_letter, contains, contains_char, contains_text, count_occurrences,
    ends_with, ends_with_char, first_index_of, has_prefix, index_of, is_ascii_letter,
    lemma_first_index_of, lemma_contains_char_iff, occurrences, starts_with, utf8_len,
};
use crate::text::{chars_of, copy_range, trim, trimmed};
use crate::trusted::is_numeric_char;

verus! {

/// A text longer than this and ending in `.`, `!` or `?` reads as a sentence.
pub const SENTENCE_MIN_LEN: u128 = 80;

/// A numbered text whose part after the first `.` is longer than this reads
/// as a list item.
pub const NUMBERED_ITEM_MIN_TAIL: u128 = 20;

/// Whether `t` starts with one of the bullet markers `"• "`, `"- "`, `"* "`.
pub open spec fn has_bullet_marker(t: Seq<char>) -> bool {
    has_prefix(t, "• "@) || has_prefix(t, "- "@) || has_prefix(t, "* "@)
}

/// What follows the first `.` of `t`, trimmed.
pub open spec fn after_first_dot(t: Seq<char>) -> Seq<char> {
    trim(t.subrange(first_index_of(t, '.', 0) + 1, t.len() as int))
}

/// Whether `t` starts with a numeric character, holds a `.`, and has more
/// than `NUMBERED_ITEM_MIN_TAIL` bytes of text after that `.`.
pub open spec fn has_numbered_marker(t: Seq<char>) -> bool {
    &&& t.len() > 0
    &&& is_numeric_char(t[0])
    &&& contains_char(t, '.')
    &&& utf8_len(after_first_dot(t)) > NUMBERED_ITEM_MIN_TAIL
}

/// Whether the second character of `t` is `.` and the first an ASCII letter.
pub open spec fn has_letter_marker(t: Seq<char>) -> bool {
    t.len() >= 2 && t[1] == '.' && is_ascii_letter(t[0])
}

/// Whether a text, once trimmed, looks like an item of a list.
pub open spec fn is_list_item_like(text: Seq<char>) -> bool {
    let t = trim(text);
    has_bullet_marker(t) || has_numbered_marker(t) || has_letter_marker(t)
}

/// Whether `t` holds one of the connectors `" and "`, `" but "`,
/// `" however "`, `" therefore "`.
pub open spec fn has_sentence_connector(t: Seq<char>) -> bool {
    ||| contains_text(t, " and "@)
    ||| contains_text(t, " but "@)
    ||| contains_text(t, " however "@)
    ||| contains_text(t, " therefore "@)
}

/// Whether `t` ends in `.`, `!` or `?`.
pub open spec fn ends_like_sentence(t: Seq<char>) -> bool {
    ends_with_char(t, '.') || ends_with_char(t, '!') || ends_with_char(t, '?')
}

/// Whether a text, once trimmed, reads as a sentence.
pub open spec fn is_sentence_like(text: Seq<char>) -> bool {
    let t = trim(text);
    ||| occurrences(t, ". "@) > 1
    ||| (utf8_len(t) > SENTENCE_MIN_LEN && ends_like_sentence(t))
    ||| has_sentence_connector(t)
}

/// Whether the trimmed text `t` starts with a bullet marker.
pub fn starts_with_bullet(t: &[char]) -> (r: bool)
    ensures
        r == has_bullet_marker(t@),
{
    let dot = chars_of("• ");
    let dash = chars_of("- ");
    let star = chars_of("* ");
    starts_with(t, dot.as_slice()) || starts_with(t, dash.as_slice()) || starts_with(
        t,
        star.as_slice(),
    )
}

/// Whether the trimmed text `t` starts like a numbered item.
pub fn starts_with_number_marker(t: &[char]) -> (r: bool)
    ensures
        r == has_numbered_marker(t@),
{
    if t.len() == 0 || !t[0].is_numeric() {
        return false;
    }
    let dot = index_of(t, '.');
    proof {
        lemma_contains_char_iff(t@, '.');
        lemma_first_index_of(t@, '.', 0);
    }
    if dot >= t.len() {
        return false;
    }
    let tail = copy_range(t, dot + 1, t.len());
    let tail = trimmed(tail.as_slice());
    byte_len_of(tail.as_slice()) > NUMBERED_ITEM_MIN_TAIL
}

/// Whether the trimmed text `t` starts like a lettered item.
pub fn starts_with_letter_marker(t: &[char]) -> (r: bool)
    ensures
        r == has_letter_marker(t@),
{
    t.len() >= 2 && t[1] == '.' && char_is_ascii_letter(t[0])
}

/// Whether the characters `text` look like an item of a list.
pub fn list_item_like(text: &[char]) -> (r: bool)
    ensures
        r == is_list_item_like(text@),
{
    let t = trimmed(text);
    starts_with_number_marker(t.as_slice()) || starts_with_bullet(t.as_slice())
        || starts_with_letter_marker(t.as_slice())
}

/// Whether `text` looks like an item of a list: it starts with a bullet
/// marker, or with a number and a long text after the first `.`, or with a
/// letter and a `.`.
pub fn is_likely_list_item(text: &str) -> (r: bool)
    ensures
        r == is_list_item_like(text@),
{
    let cs = chars_of(text);
    list_item_like(cs.as_slice())
}

/// Whether the characters `text` read as a sentence.
pub fn sentence_like(text: &[char]) -> (r: bool)
    ensures
        r == is_sentence_like(text@),
{
    let t = trimmed(text);
    let stop = chars_of(". ");
    if count_occurrences(t.as_slice(), stop.as_slice()) > 1 {
        return true;
    }
    if byte_len_of(t.as_slice()) > SENTENCE_MIN_LEN && (ends_with(t.as_slice(), '.') || ends_with(
        t.as_slice(),
        '!',
    ) || ends_with(t.as_slice(), '?')) {
        return true;
    }
    let and = chars_of(" and ");
    let but = chars_of(" but ");
    let however = chars_of(" however ");
    let therefore = chars_of(" therefore ");
    contains(t.as_slice(), and.as_slice()) || contains(t.as_slice(), but.as_slice()) || contains(
        t.as_slice(),
        however.as_slice(),
    ) || contains(t.as_slice(), therefore.as_slice())
}

/// Whether `text` reads as a sentence: it holds more than one `". "`, or it
/// is long and ends in `.`, `!` or `?`, or it holds a sentence connector.
pub fn is_likely_sentence(text: &str) -> (r: bool)
    ensures
        r == is_sentence_like(text@),
{
    let cs = chars_of(text);
    sentence_like(cs.as_slice())
}

} // verus!
