//! The heading classifier.
//!
//! A paragraph is a heading by its style, or, where it has no heading style,
//! by what its text looks like. A styled heading takes its number from the
//! text, else from the numbering metadata, else from the tracker.

use vstd::prelude::*;
use crate::heuristics::{is_list_item_like, is_sentence_like, list_item_like, sentence_like};
use crate::model::{opt_text, Numbering, ParagraphModel, RawParagraph, TextFormatting};
use crate::numbering::{reconstruct_heading_number, synthesized_number};
use crate::normalize::{extract_paragraph_text, paragraph_text};
use crate::scan::{
    ascii_lowercase, byte_len_of, char_is_ascii_digit, char_is_ascii_punctuation, contains,
    contains_char, contains_text, count_words, decimal, digit_value, end_of_word, ends_with,
    ends_with_char, has_char, has_prefix, is_ascii_digit, is_ascii_punctuation, starts_with,
    starts_word, to_ascii_lowercase, utf8_len, word_at, word_count,
};
use crate::text::{
    char_is_white_space, chars_of, copy_range, is_white_space, string_of, trim, trimmed,
};
use crate::trusted::{
    capture_two_groups, is_alphabetic_char, is_numeric_char, is_uppercase_char, opt_pair_text,
    regex_two_groups,
};

verus! {

// ---------------------------------------------------------------------------
// Thresholds of the text heuristics, in bytes unless said otherwise
// ---------------------------------------------------------------------------

/// A text of this length or more is never a heading.
pub const HEADING_TEXT_LIMIT: u128 = 100;

/// A bold heading is longer than this.
pub const BOLD_HEADING_MIN: u128 = 5;

/// A bold heading is shorter than this.
pub const BOLD_HEADING_MAX: u128 = 60;

/// An upper-case heading is longer than this.
pub const CAPS_HEADING_MIN: u128 = 15;

/// An upper-case heading is shorter than this.
pub const CAPS_HEADING_MAX: u128 = 50;

/// A short-phrase heading is longer than this.
pub const PHRASE_HEADING_MIN: u128 = 10;

/// A short-phrase heading is shorter than this.
pub const PHRASE_HEADING_MAX: u128 = 40;

/// A short-phrase heading has at least this many words.
pub const PHRASE_MIN_WORDS: usize = 2;

/// A short-phrase heading has at most this many words.
pub const PHRASE_MAX_WORDS: usize = 5;

/// A meaningful word is longer than this.
pub const MEANINGFUL_WORD_MIN: u128 = 3;

/// A heading text shorter than this is of level 1.
pub const LEVEL_ONE_LIMIT: u128 = 20;

/// A heading text shorter than this, and not of level 1, is of level 2.
pub const LEVEL_TWO_LIMIT: u128 = 40;

/// The deepest heading level.
pub const MAX_HEADING_LEVEL: u8 = 6;

// ---------------------------------------------------------------------------
// Style match
// ---------------------------------------------------------------------------

/// The level that a style name declares: none unless the name starts with
/// `heading` in any mix of ASCII cases; else its last character, where that
/// is a digit, held between 1 and 6; else 1.
pub open spec fn style_level(name: Seq<char>) -> Option<u8> {
    if has_prefix(ascii_lowercase(name), "heading"@) {
        if is_ascii_digit(name.last()) {
            let d = (name.last() as u8 - 0x30) as u8;
            Some(
                if d < 1 {
                    1u8
                } else if d > MAX_HEADING_LEVEL {
                    MAX_HEADING_LEVEL
                } else {
                    d
                },
            )
        } else {
            Some(1u8)
        }
    } else {
        None
    }
}

/// The heading level that the style of a paragraph declares.
pub open spec fn style_heading_level(style: Option<Seq<char>>) -> Option<u8> {
    match style {
        Some(name) => style_level(name),
        None => None,
    }
}

/// A declared level lies between 1 and 6.
pub proof fn lemma_style_level_range(name: Seq<char>)
    ensures
        style_level(name) matches Some(l) ==> 1 <= l <= MAX_HEADING_LEVEL,
{
}

/// The level that the style name `name` declares.
pub fn heading_level_of_style(name: &str) -> (r: Option<u8>)
    ensures
        r == style_level(name@),
{
    let cs = chars_of(name);
    let lower = to_ascii_lowercase(cs.as_slice());
    let prefix = chars_of("heading");
    if !starts_with(lower.as_slice(), prefix.as_slice()) {
        return None;
    }
    proof {
        reveal_strlit("heading");
        assert(cs@.len() == lower@.len());
        assert(cs@.len() >= 7);
    }
    let last = cs[cs.len() - 1];
    if char_is_ascii_digit(last) {
        let d = digit_value(last);
        if d < 1 {
            Some(1)
        } else if d > MAX_HEADING_LEVEL {
            Some(MAX_HEADING_LEVEL)
        } else {
            Some(d)
        }
    } else {
        Some(1)
    }
}

/// The heading level that the style of `para` declares, if any.
pub fn detect_heading_from_paragraph_style(para: &RawParagraph) -> (r: Option<u8>)
    ensures
        r == style_heading_level(para@.style),
{
    match &para.style {
        Some(name) => heading_level_of_style(name.as_str()),
        None => None,
    }
}

// ---------------------------------------------------------------------------
// Manual numbering in the text
// ---------------------------------------------------------------------------

/// The number of numbering patterns.
pub const HEADING_PATTERN_COUNT: usize = 4;

/// The numbering patterns, in the order in which they are tried: decimal
/// hierarchical, `Section`/`Chapter`/`Part` with a number, one capital letter
/// with a dot, a roman numeral with a dot. Group 1 is the number, group 2
/// the text after it.
pub open spec fn heading_pattern(k: int) -> Seq<char> {
    if k == 0 {
        r"^(\d+(?:\.\d+)*\.?)\s+(.+)$"@
    } else if k == 1 {
        r"^((?:Section|Chapter|Part)\s+\d+(?:\.\d+)*\.?)\s+(.+)$"@
    } else if k == 2 {
        r"^([A-Z]\.)\s+(.+)$"@
    } else {
        r"^([IVX]+\.)\s+(.+)$"@
    }
}

/// The numbering pattern of index `k`.
pub fn heading_pattern_text(k: usize) -> (p: &'static str)
    ensures
        p@ == heading_pattern(k as int),
{
    if k == 0 {
        r"^(\d+(?:\.\d+)*\.?)\s+(.+)$"
    } else if k == 1 {
        r"^((?:Section|Chapter|Part)\s+\d+(?:\.\d+)*\.?)\s+(.+)$"
    } else if k == 2 {
        r"^([A-Z]\.)\s+(.+)$"
    } else {
        r"^([IVX]+\.)\s+(.+)$"
    }
}

/// `s` without the characters `c` at its end.
pub open spec fn strip_trailing(s: Seq<char>, c: char) -> Seq<char>
    decreases s.len(),
{
    if s.len() > 0 && s.last() == c {
        strip_trailing(s.drop_last(), c)
    } else {
        s
    }
}

/// What is left of `s` is a prefix of `s` that does not end in `c`.
pub proof fn lemma_strip_trailing(s: Seq<char>, c: char)
    ensures
        strip_trailing(s, c).len() <= s.len(),
        strip_trailing(s, c) == s.subrange(0, strip_trailing(s, c).len() as int),
        !ends_with_char(strip_trailing(s, c), c),
        forall|k: int| strip_trailing(s, c).len() <= k < s.len() ==> #[trigger] s[k] == c,
    decreases s.len(),
{
    if s.len() > 0 && s.last() == c {
        lemma_strip_trailing(s.drop_last(), c);
        let r = strip_trailing(s, c);
        assert(r == s.drop_last().subrange(0, r.len() as int));
        assert(r =~= s.subrange(0, r.len() as int));
        assert forall|k: int| r.len() <= k < s.len() implies #[trigger] s[k] == c by {
            if k < s.len() - 1 {
                assert(s[k] == s.drop_last()[k]);
            }
        }
    } else {
        assert(s =~= s.subrange(0, s.len() as int));
    }
}

/// `chars` without the characters `c` at its end.
pub fn stripped_trailing(chars: &[char], c: char) -> (out: Vec<char>)
    ensures
        out@ == strip_trailing(chars@, c),
{
    let mut n: usize = chars.len();
    assert(chars@.take(n as int) == chars@);
    while n > 0 && chars[n - 1] == c
        invariant
            n <= chars.len(),
            strip_trailing(chars@.take(n as int), c) == strip_trailing(chars@, c),
        decreases n,
    {
        proof {
            assert(chars@.take(n as int).drop_last() == chars@.take(n - 1));
            assert(chars@.take(n as int).last() == chars@[n - 1]);
        }
        n -= 1;
    }
    proof {
        if n == 0 {
            assert(chars@.take(0).len() == 0);
        } else {
            assert(chars@.take(n as int).last() == chars@[n - 1]);
        }
        assert(strip_trailing(chars@.take(n as int), c) == chars@.take(n as int));
        assert(chars@.take(n as int) == chars@.subrange(0, n as int));
    }
    copy_range(chars, 0, n)
}

/// The number and the clean text that two captured groups give: the first
/// group without the dots at its end and the second group trimmed, and
/// nothing where either is then empty.
pub open spec fn number_from_groups(first: Seq<char>, second: Seq<char>) -> Option<
    (Seq<char>, Seq<char>),
> {
    let number = strip_trailing(first, '.');
    let rest = trim(second);
    if number.len() > 0 && rest.len() > 0 {
        Some((number, rest))
    } else {
        None
    }
}

/// What the pattern of index `k` extracts from the trimmed text `t`.
pub open spec fn pattern_result(t: Seq<char>, k: int) -> Option<(Seq<char>, Seq<char>)> {
    match regex_two_groups(heading_pattern(k), t) {
        Some((first, second)) => number_from_groups(first, second),
        None => None,
    }
}

/// What the patterns of index `k` and after extract from the trimmed text
/// `t`: the result of the first of them that gives one.
pub open spec fn first_pattern_result(t: Seq<char>, k: int) -> Option<(Seq<char>, Seq<char>)>
    decreases HEADING_PATTERN_COUNT - k,
{
    if k < 0 || k >= HEADING_PATTERN_COUNT {
        None
    } else if pattern_result(t, k) is Some {
        pattern_result(t, k)
    } else {
        first_pattern_result(t, k + 1)
    }
}

/// The number that was typed at the start of a heading text and the text
/// after it: nothing for a blank text, else what the first pattern that
/// yields a number and a text extracts from the trimmed text.
pub open spec fn manual_heading_number(text: Seq<char>) -> Option<(Seq<char>, Seq<char>)> {
    let t = trim(text);
    if t.len() == 0 {
        None
    } else {
        first_pattern_result(t, 0)
    }
}

/// The number and the clean text for the two groups that a pattern has
/// captured.
pub fn heading_number_from_groups(first: &str, second: &str) -> (r: Option<(String, String)>)
    ensures
        opt_pair_text(r) == number_from_groups(first@, second@),
{
    let f = chars_of(first);
    let s = chars_of(second);
    let number = stripped_trailing(f.as_slice(), '.');
    let rest = trimmed(s.as_slice());
    if number.len() > 0 && rest.len() > 0 {
        Some((string_of(number.as_slice()), string_of(rest.as_slice())))
    } else {
        None
    }
}

/// The number that was typed at the start of `text` and the text after it.
///
/// Whatever the pattern matcher finds, a number that comes back is not
/// empty and does not end in a dot, and the text that comes with it is not
/// empty and carries no white space at either end.
pub fn extract_heading_number_from_text(text: &str) -> (r: Option<(String, String)>)
    ensures
        opt_pair_text(r) == manual_heading_number(text@),
{
    let cs = chars_of(text);
    let t = trimmed(cs.as_slice());
    if t.len() == 0 {
        return None;
    }
    let trimmed_text = string_of(t.as_slice());
    let mut k: usize = 0;
    while k < HEADING_PATTERN_COUNT
        invariant
            k <= HEADING_PATTERN_COUNT,
            trimmed_text@ == trim(text@),
            trim(text@).len() > 0,
            first_pattern_result(trim(text@), k as int) == first_pattern_result(trim(text@), 0),
        decreases HEADING_PATTERN_COUNT - k,
    {
        let groups = capture_two_groups(heading_pattern_text(k), trimmed_text.as_str());
        if let Some((first, second)) = groups {
            let found = heading_number_from_groups(first.as_str(), second.as_str());
            if found.is_some() {
                proof {
                    let t = trim(text@);
                    assert(regex_two_groups(heading_pattern(k as int), t) == Some(
                        (first@, second@),
                    ));
                    assert(pattern_result(t, k as int) == opt_pair_text(found));
                }
                return found;
            }
        }
        k += 1;
    }
    None
}

/// A manual number is the first group of a pattern's match on the trimmed
/// text without its trailing dots, and the clean text is the second group
/// trimmed; neither is empty, and the number does not end in a dot.
pub proof fn lemma_manual_number_is_stripped_match(text: Seq<char>)
    requires
        manual_heading_number(text) is Some,
    ensures
        exists|k: int|
            0 <= k < HEADING_PATTERN_COUNT && (#[trigger] regex_two_groups(
                heading_pattern(k),
                trim(text),
            ) matches Some(groups) && manual_heading_number(text) == Some(
                (strip_trailing(groups.0, '.'), trim(groups.1)),
            )),
        (manual_heading_number(text)->0).0.len() > 0,
        (manual_heading_number(text)->0).1.len() > 0,
        !ends_with_char((manual_heading_number(text)->0).0, '.'),
{
    let t = trim(text);
    lemma_first_pattern_result(t, 0);
    let k = choose|k: int|
        0 <= k < HEADING_PATTERN_COUNT && first_pattern_result(t, 0) == pattern_result(t, k)
            && pattern_result(t, k) is Some;
    let groups = regex_two_groups(heading_pattern(k), t);
    assert(groups is Some);
    lemma_strip_trailing((groups->0).0, '.');
}

/// A result of the patterns is the result of one of them.
pub proof fn lemma_first_pattern_result(t: Seq<char>, from: int)
    requires
        0 <= from,
        first_pattern_result(t, from) is Some,
    ensures
        exists|k: int|
            from <= k < HEADING_PATTERN_COUNT && first_pattern_result(t, from) == pattern_result(
                t,
                k,
            ) && #[trigger] pattern_result(t, k) is Some,
    decreases HEADING_PATTERN_COUNT - from,
{
    if from < HEADING_PATTERN_COUNT {
        if pattern_result(t, from) is Some {
        } else {
            lemma_first_pattern_result(t, from + 1);
        }
    }
}

// ---------------------------------------------------------------------------
// Headings by style
// ---------------------------------------------------------------------------

/// What the style and the numbering of a paragraph say about a heading.
///
/// `number` is unset where neither the text nor the metadata gives one;
/// `clean_text` is unset in that case too, and the heading keeps the
/// paragraph's own text.
#[derive(Debug, Clone)]
pub struct HeadingInfo {
    pub level: u8,
    pub number: Option<String>,
    pub clean_text: Option<String>,
}

/// The view of a `HeadingInfo`: every string as the sequence of its characters.
pub struct HeadingInfoModel {
    pub level: u8,
    pub number: Option<Seq<char>>,
    pub clean_text: Option<Seq<char>>,
}

impl View for HeadingInfo {
    type V = HeadingInfoModel;

    open spec fn view(&self) -> HeadingInfoModel {
        HeadingInfoModel {
            level: self.level,
            number: opt_text(self.number),
            clean_text: opt_text(self.clean_text),
        }
    }
}

/// The view of an optional heading record.
pub open spec fn opt_heading_info(h: Option<HeadingInfo>) -> Option<HeadingInfoModel> {
    match h {
        Some(info) => Some(info@),
        None => None,
    }
}

/// The numbering level that the metadata declares, 0 where it declares none.
pub open spec fn declared_level(numbering: Numbering) -> u8 {
    match numbering.level {
        Some(l) => l,
        None => 0,
    }
}

/// The heading that a paragraph is by its style: none without a heading
/// style; else the number typed in the text with the text after it; else,
/// with a numbering id, the synthesized number with the text as it is; else
/// no number.
pub open spec fn styled_heading(p: ParagraphModel) -> Option<HeadingInfoModel> {
    match style_heading_level(p.style) {
        None => None,
        Some(level) => {
            let text = paragraph_text(p);
            match manual_heading_number(text) {
                Some((number, rest)) => Some(
                    HeadingInfoModel { level, number: Some(number), clean_text: Some(rest) },
                ),
                None => match p.numbering {
                    Some(n) => {
                        if n.id is Some {
                            Some(
                                HeadingInfoModel {
                                    level,
                                    number: Some(synthesized_number(declared_level(n), level)),
                                    clean_text: Some(text),
                                },
                            )
                        } else {
                            Some(HeadingInfoModel { level, number: None, clean_text: None })
                        }
                    },
                    None => Some(HeadingInfoModel { level, number: None, clean_text: None }),
                },
            }
        },
    }
}

/// The numbering id and level of a paragraph's metadata, where it has an id.
pub fn extract_numbering_info(numbering: &Numbering) -> (r: Option<(u64, u8)>)
    ensures
        r == match numbering.id {
            Some(id) => Some((id, declared_level(*numbering))),
            None => None,
        },
{
    match numbering.id {
        Some(id) => {
            let level: u8 = match numbering.level {
                Some(l) => l,
                None => 0,
            };
            Some((id, level))
        },
        None => None,
    }
}

/// The heading that `para` is by its style, with its number where the text
/// or the numbering metadata gives one.
pub fn detect_heading_with_numbering(para: &RawParagraph) -> (r: Option<HeadingInfo>)
    ensures
        opt_heading_info(r) == styled_heading(para@),
{
    let level = match detect_heading_from_paragraph_style(para) {
        Some(l) => l,
        None => {
            return None;
        },
    };
    let text = extract_paragraph_text(para);
    let text = string_of(text.as_slice());
    if let Some((number, rest)) = extract_heading_number_from_text(text.as_str()) {
        return Some(HeadingInfo { level, number: Some(number), clean_text: Some(rest) });
    }
    if let Some(numbering) = &para.numbering {
        if let Some((num_id, num_level)) = extract_numbering_info(numbering) {
            let number = reconstruct_heading_number(num_id, num_level, level);
            return Some(HeadingInfo { level, number: Some(number), clean_text: Some(text) });
        }
    }
    Some(HeadingInfo { level, number: None, clean_text: None })
}

// ---------------------------------------------------------------------------
// Headings by the look of the text
// ---------------------------------------------------------------------------

/// The level of a heading found by its text: the shorter the text, the
/// higher the heading.
pub open spec fn heading_level_by_length(t: Seq<char>) -> u8 {
    if utf8_len(t) < LEVEL_ONE_LIMIT {
        1
    } else if utf8_len(t) < LEVEL_TWO_LIMIT {
        2
    } else {
        3
    }
}

/// Whether `t` starts with one of the glyphs `⏺`, `⎿`, `☐`, `☒`.
pub open spec fn has_glyph_marker(t: Seq<char>) -> bool {
    ||| has_prefix(t, "⏺"@)
    ||| has_prefix(t, "⎿"@)
    ||| has_prefix(t, "☐"@)
    ||| has_prefix(t, "☒"@)
}

/// Whether `t` holds one of the connectors `" the "`, `" and "`, `" with "`,
/// `" for "`.
pub open spec fn has_mid_sentence_connector(t: Seq<char>) -> bool {
    ||| contains_text(t, " the "@)
    ||| contains_text(t, " and "@)
    ||| contains_text(t, " with "@)
    ||| contains_text(t, " for "@)
}

/// Whether the trimmed text `t` is ruled out as a heading whatever else
/// holds of it.
pub open spec fn is_rejected_as_heading(t: Seq<char>) -> bool {
    ||| utf8_len(t) >= HEADING_TEXT_LIMIT
    ||| contains_char(t, '\n')
    ||| is_list_item_like(t)
    ||| is_sentence_like(t)
    ||| has_glyph_marker(t)
    ||| has_mid_sentence_connector(t)
}

/// Whether `c` may stand in an upper-case heading: an upper-case character,
/// white space, a numeric character or ASCII punctuation.
pub open spec fn is_caps_heading_char(c: char) -> bool {
    is_uppercase_char(c) || is_white_space(c) || is_numeric_char(c) || is_ascii_punctuation(c)
}

/// Whether every character of `t` may stand in an upper-case heading.
pub open spec fn is_all_caps(t: Seq<char>) -> bool {
    forall|k: int| 0 <= k < t.len() ==> is_caps_heading_char(#[trigger] t[k])
}

/// Whether the word `w` is longer than `MEANINGFUL_WORD_MIN` and alphabetic
/// throughout.
pub open spec fn is_meaningful_word(w: Seq<char>) -> bool {
    utf8_len(w) > MEANINGFUL_WORD_MIN && forall|k: int|
        0 <= k < w.len() ==> is_alphabetic_char(#[trigger] w[k])
}

/// Whether one of the words of `t` is meaningful.
pub open spec fn has_meaningful_word(t: Seq<char>) -> bool {
    exists|i: int| starts_word(t, i) && is_meaningful_word(#[trigger] word_at(t, i))
}

/// Whether `t` is a bold heading: bold, of the right length, and not ending
/// in `.`, `,`, `;` or `:`.
pub open spec fn is_bold_heading(t: Seq<char>, bold: bool) -> bool {
    &&& bold
    &&& BOLD_HEADING_MIN < utf8_len(t) < BOLD_HEADING_MAX
    &&& !ends_with_char(t, '.')
    &&& !ends_with_char(t, ',')
    &&& !ends_with_char(t, ';')
    &&& !ends_with_char(t, ':')
}

/// Whether `t` is an upper-case heading.
pub open spec fn is_caps_heading(t: Seq<char>) -> bool {
    CAPS_HEADING_MIN < utf8_len(t) < CAPS_HEADING_MAX && is_all_caps(t)
}

/// Whether `t` starts with `"Chapter "`, `"Section "` or `"Part "`.
pub open spec fn is_division_heading(t: Seq<char>) -> bool {
    has_prefix(t, "Chapter "@) || has_prefix(t, "Section "@) || has_prefix(t, "Part "@)
}

/// Whether `t` is a short phrase that stands alone: of the right length,
/// not ending in `.`, `,`, `:` or a round bracket, of two to five words,
/// one of them meaningful, and starting with an upper-case character.
pub open spec fn is_phrase_heading(t: Seq<char>) -> bool {
    &&& PHRASE_HEADING_MIN < utf8_len(t) < PHRASE_HEADING_MAX
    &&& !ends_with_char(t, '.')
    &&& !ends_with_char(t, ',')
    &&& !ends_with_char(t, '(')
    &&& !ends_with_char(t, ')')
    &&& !ends_with_char(t, ':')
    &&& PHRASE_MIN_WORDS <= word_count(t) <= PHRASE_MAX_WORDS
    &&& has_meaningful_word(t)
    &&& t.len() > 0
    &&& is_uppercase_char(t[0])
}

/// The level of the heading that a paragraph without a heading style is by
/// the look of its text, if it is one. The rules are tried in this order
/// and the first that holds decides.
pub open spec fn text_heading_level(text: Seq<char>, bold: bool) -> Option<u8> {
    let t = trim(text);
    if is_rejected_as_heading(t) {
        None
    } else if is_bold_heading(t, bold) {
        Some(heading_level_by_length(t))
    } else if is_caps_heading(t) {
        Some(1u8)
    } else if is_division_heading(t) {
        Some(heading_level_by_length(t))
    } else if is_phrase_heading(t) {
        Some(heading_level_by_length(t))
    } else {
        None
    }
}

/// A level found by the look of the text lies between 1 and 3.
pub proof fn lemma_text_heading_level_range(text: Seq<char>, bold: bool)
    ensures
        text_heading_level(text, bold) matches Some(l) ==> 1 <= l <= 3,
{
}

/// The level of a heading with the text `t`, by its length.
pub fn level_by_length(t: &[char]) -> (l: u8)
    ensures
        l == heading_level_by_length(t@),
{
    let n = byte_len_of(t);
    if n < LEVEL_ONE_LIMIT {
        1
    } else if n < LEVEL_TWO_LIMIT {
        2
    } else {
        3
    }
}

/// The level of a heading with the text `text`, by its length: 1 below 20
/// bytes, 2 below 40, else 3.
pub fn determine_heading_level_from_text(text: &str) -> (l: u8)
    ensures
        l == heading_level_by_length(text@),
{
    let cs = chars_of(text);
    level_by_length(cs.as_slice())
}

fn rejected_as_heading(t: &[char]) -> (r: bool)
    ensures
        r == is_rejected_as_heading(t@),
{
    if byte_len_of(t) >= HEADING_TEXT_LIMIT || has_char(t, '\n') {
        return true;
    }
    if list_item_like(t) || sentence_like(t) {
        return true;
    }
    let g1 = chars_of("⏺");
    let g2 = chars_of("⎿");
    let g3 = chars_of("☐");
    let g4 = chars_of("☒");
    if starts_with(t, g1.as_slice()) || starts_with(t, g2.as_slice()) || starts_with(
        t,
        g3.as_slice(),
    ) || starts_with(t, g4.as_slice()) {
        return true;
    }
    let the = chars_of(" the ");
    let and = chars_of(" and ");
    let with = chars_of(" with ");
    let for_ = chars_of(" for ");
    contains(t, the.as_slice()) || contains(t, and.as_slice()) || contains(t, with.as_slice())
        || contains(t, for_.as_slice())
}

fn all_caps(t: &[char]) -> (r: bool)
    ensures
        r == is_all_caps(t@),
{
    let mut i: usize = 0;
    while i < t.len()
        invariant
            i <= t.len(),
            forall|k: int| 0 <= k < i ==> is_caps_heading_char(#[trigger] t@[k]),
        decreases t.len() - i,
    {
        let c = t[i];
        if !(c.is_uppercase() || char_is_white_space(c) || c.is_numeric()
            || char_is_ascii_punctuation(c)) {
            return false;
        }
        i += 1;
    }
    true
}

fn all_alphabetic(w: &[char]) -> (r: bool)
    ensures
        r == (forall|k: int| 0 <= k < w.len() ==> is_alphabetic_char(#[trigger] w@[k])),
{
    let mut i: usize = 0;
    while i < w.len()
        invariant
            i <= w.len(),
            forall|k: int| 0 <= k < i ==> is_alphabetic_char(#[trigger] w@[k]),
        decreases w.len() - i,
    {
        if !w[i].is_alphabetic() {
            return false;
        }
        i += 1;
    }
    true
}

fn meaningful_word_in(t: &[char]) -> (r: bool)
    ensures
        r == has_meaningful_word(t@),
{
    let mut i: usize = 0;
    while i < t.len()
        invariant
            i <= t.len(),
            forall|a: int|
                0 <= a < i ==> !(starts_word(t@, a) && is_meaningful_word(
                    #[trigger] word_at(t@, a),
                )),
        decreases t.len() - i,
    {
        if !char_is_white_space(t[i]) && (i == 0 || char_is_white_space(t[i - 1])) {
            let e = end_of_word(t, i);
            let w = copy_range(t, i, e);
            if byte_len_of(w.as_slice()) > MEANINGFUL_WORD_MIN && all_alphabetic(w.as_slice()) {
                assert(starts_word(t@, i as int) && is_meaningful_word(word_at(t@, i as int)));
                return true;
            }
        }
        i += 1;
    }
    false
}

fn heading_level_of_chars(text: &[char], bold: bool) -> (r: Option<u8>)
    ensures
        r == text_heading_level(text@, bold),
{
    let t = trimmed(text);
    let t = t.as_slice();
    if rejected_as_heading(t) {
        return None;
    }
    let n = byte_len_of(t);
    if bold && BOLD_HEADING_MIN < n && n < BOLD_HEADING_MAX && !ends_with(t, '.') && !ends_with(
        t,
        ',',
    ) && !ends_with(t, ';') && !ends_with(t, ':') {
        return Some(level_by_length(t));
    }
    if CAPS_HEADING_MIN < n && n < CAPS_HEADING_MAX && all_caps(t) {
        return Some(1);
    }
    let chapter = chars_of("Chapter ");
    let section = chars_of("Section ");
    let part = chars_of("Part ");
    if starts_with(t, chapter.as_slice()) || starts_with(t, section.as_slice()) || starts_with(
        t,
        part.as_slice(),
    ) {
        return Some(level_by_length(t));
    }
    if PHRASE_HEADING_MIN < n && n < PHRASE_HEADING_MAX && !ends_with(t, '.') && !ends_with(
        t,
        ',',
    ) && !ends_with(t, '(') && !ends_with(t, ')') && !ends_with(t, ':') {
        let words = count_words(t);
        if PHRASE_MIN_WORDS <= words && words <= PHRASE_MAX_WORDS && meaningful_word_in(t)
            && t.len() > 0 && t[0].is_uppercase() {
            return Some(level_by_length(t));
        }
    }
    None
}

/// The level of the heading that a paragraph with the text `text` and the
/// formatting `formatting` is by the look of its text, if it is one.
pub fn detect_heading_from_text(text: &str, formatting: &TextFormatting) -> (r: Option<u8>)
    ensures
        r == text_heading_level(text@, formatting.bold),
{
    let cs = chars_of(text);
    heading_level_of_chars(cs.as_slice(), formatting.bold)
}

} // verus!
