//! Scanning primitives over character sequences: lengths in bytes, prefixes,
//! substrings, occurrences and words.

use vstd::prelude::*;
use crate::text::{char_is_white_space, is_white_space};

verus! {

// ---------------------------------------------------------------------------
// Length in bytes
// ---------------------------------------------------------------------------

/// The number of bytes that `c` takes in UTF-8.
pub open spec fn char_width(c: char) -> nat {
    let u = c as u32;
    if u < 0x80 {
        1
    } else if u < 0x800 {
        2
    } else if u < 0x10000 {
        3
    } else {
        4
    }
}

/// The number of bytes that the text `s` takes in UTF-8.
pub open spec fn utf8_len(s: Seq<char>) -> nat
    decreases s.len(),
{
    if s.len() == 0 {
        0
    } else {
        char_width(s[0]) + utf8_len(s.drop_first())
    }
}

/// `utf8_len` is the length of the UTF-8 encoding.
pub proof fn lemma_utf8_len_is_encoding_len(s: Seq<char>)
    ensures
        utf8_len(s) == vstd::utf8::encode_utf8(s).len(),
    decreases s.len(),
{
    if s.len() > 0 {
        vstd::utf8::char_is_scalar(s[0]);
        lemma_utf8_len_is_encoding_len(s.drop_first());
    }
}

/// The length in bytes of a concatenation is the sum of the lengths.
pub proof fn lemma_utf8_len_concat(a: Seq<char>, b: Seq<char>)
    ensures
        utf8_len(a + b) == utf8_len(a) + utf8_len(b),
    decreases a.len(),
{
    if a.len() == 0 {
        assert(a + b == b);
    } else {
        assert((a + b).drop_first() == a.drop_first() + b);
        lemma_utf8_len_concat(a.drop_first(), b);
    }
}

/// Appending one character adds its width.
pub proof fn lemma_utf8_len_push(a: Seq<char>, c: char)
    ensures
        utf8_len(a.push(c)) == utf8_len(a) + char_width(c),
{
    lemma_utf8_len_concat(a, seq![c]);
    assert(a.push(c) == a + seq![c]);
    assert(seq![c].drop_first() == Seq::<char>::empty());
    assert(utf8_len(seq![c]) == char_width(c) + utf8_len(seq![c].drop_first()));
}

/// A text takes no byte exactly when it holds no character.
pub proof fn lemma_utf8_len_is_length_zero(s: Seq<char>)
    ensures
        utf8_len(s) == 0 <==> s.len() == 0,
{
}

/// A part of a text is no longer than the text.
pub proof fn lemma_utf8_len_subrange(s: Seq<char>, a: int, b: int)
    requires
        0 <= a <= b <= s.len(),
    ensures
        utf8_len(s.subrange(a, b)) <= utf8_len(s),
{
    let left = s.subrange(0, a);
    let mid = s.subrange(a, b);
    let right = s.subrange(b, s.len() as int);
    assert(s == left + mid + right);
    lemma_utf8_len_concat(left + mid, right);
    lemma_utf8_len_concat(left, mid);
}

/// The width of `c` in bytes.
pub fn width_of(c: char) -> (w: u8)
    ensures
        w == char_width(c),
{
    let u: u32 = c as u32;
    if u < 0x80 {
        1
    } else if u < 0x800 {
        2
    } else if u < 0x10000 {
        3
    } else {
        4
    }
}

/// The length of `s` in bytes.
pub fn byte_len(s: &str) -> (n: usize)
    ensures
        n == utf8_len(s@),
{
    let bytes = s.as_bytes();
    proof {
        lemma_utf8_len_is_encoding_len(s@);
    }
    bytes.len()
}

/// The length in bytes of the text `chars`.
pub fn byte_len_of(chars: &[char]) -> (n: u128)
    ensures
        n == utf8_len(chars@),
{
    let mut n: u128 = 0;
    let mut i: usize = 0;
    while i < chars.len()
        invariant
            i <= chars.len(),
            n == utf8_len(chars@.take(i as int)),
            n <= 4 * i,
        decreases chars.len() - i,
    {
        proof {
            lemma_utf8_len_push(chars@.take(i as int), chars@[i as int]);
            assert(chars@.take(i as int).push(chars@[i as int]) == chars@.take(i + 1));
        }
        n = n + width_of(chars[i]) as u128;
        i += 1;
    }
    assert(chars@.take(chars.len() as int) == chars@);
    n
}

// ---------------------------------------------------------------------------
// Prefixes, suffixes and substrings
// ---------------------------------------------------------------------------

/// Whether the text `p` stands in `s` at index `i`.
pub open spec fn occurs_at(s: Seq<char>, p: Seq<char>, i: int) -> bool {
    0 <= i && i + p.len() <= s.len() && s.subrange(i, i + p.len()) == p
}

/// Whether `s` starts with `p`.
pub open spec fn has_prefix(s: Seq<char>, p: Seq<char>) -> bool {
    occurs_at(s, p, 0)
}

/// Whether `s` ends with the character `c`.
pub open spec fn ends_with_char(s: Seq<char>, c: char) -> bool {
    s.len() > 0 && s.last() == c
}

/// Whether `p` stands somewhere in `s`.
pub open spec fn contains_text(s: Seq<char>, p: Seq<char>) -> bool {
    exists|i: int| occurs_at(s, p, i)
}

/// Whether the character `c` is in `s`.
pub open spec fn contains_char(s: Seq<char>, c: char) -> bool {
    exists|i: int| 0 <= i < s.len() && s[i] == c
}

/// The first index at or after `from` that holds `c`, or the length of `s`
/// when there is none.
pub open spec fn first_index_of(s: Seq<char>, c: char, from: int) -> int
    decreases s.len() - from,
{
    if 0 <= from < s.len() && s[from] != c {
        first_index_of(s, c, from + 1)
    } else {
        from
    }
}

pub proof fn lemma_first_index_of(s: Seq<char>, c: char, from: int)
    requires
        0 <= from <= s.len(),
    ensures
        from <= first_index_of(s, c, from) <= s.len(),
        forall|k: int| from <= k < first_index_of(s, c, from) ==> #[trigger] s[k] != c,
        first_index_of(s, c, from) < s.len() ==> s[first_index_of(s, c, from)] == c,
    decreases s.len() - from,
{
    if from < s.len() && s[from] != c {
        lemma_first_index_of(s, c, from + 1);
    }
}

/// `c` is in `s` exactly when the first index of `c` is inside `s`.
pub proof fn lemma_contains_char_iff(s: Seq<char>, c: char)
    ensures
        contains_char(s, c) <==> first_index_of(s, c, 0) < s.len(),
{
    lemma_first_index_of(s, c, 0);
    if contains_char(s, c) {
        let i = choose|i: int| 0 <= i < s.len() && s[i] == c;
        if first_index_of(s, c, 0) >= s.len() {
            assert(s[i] != c);
        }
    }
}

/// Whether `p` stands in `chars` at index `i`.
pub fn matches_at(chars: &[char], p: &[char], i: usize) -> (r: bool)
    ensures
        r == occurs_at(chars@, p@, i as int),
{
    if p.len() > chars.len() || i > chars.len() - p.len() {
        return false;
    }
    let mut k: usize = 0;
    while k < p.len()
        invariant
            k <= p.len(),
            i + p.len() <= chars.len(),
            forall|j: int| 0 <= j < k ==> chars@[i + j] == p@[j],
        decreases p.len() - k,
    {
        if chars[i + k] != p[k] {
            assert(chars@.subrange(i as int, i + p.len())[k as int] != p@[k as int]);
            return false;
        }
        k += 1;
    }
    assert(chars@.subrange(i as int, i + p.len()) =~= p@);
    true
}

/// Whether `chars` starts with `p`.
pub fn starts_with(chars: &[char], p: &[char]) -> (r: bool)
    ensures
        r == has_prefix(chars@, p@),
{
    matches_at(chars, p, 0)
}

/// Whether `chars` ends with the character `c`.
pub fn ends_with(chars: &[char], c: char) -> (r: bool)
    ensures
        r == ends_with_char(chars@, c),
{
    chars.len() > 0 && chars[chars.len() - 1] == c
}

/// Whether `p` stands somewhere in `chars`.
pub fn contains(chars: &[char], p: &[char]) -> (r: bool)
    ensures
        r == contains_text(chars@, p@),
{
    if p.len() > chars.len() {
        assert(forall|i: int| !occurs_at(chars@, p@, i));
        return false;
    }
    if p.len() == 0 {
        assert(chars@.subrange(0, 0) =~= p@);
        assert(occurs_at(chars@, p@, 0));
        return true;
    }
    let last: usize = chars.len() - p.len();
    let mut i: usize = 0;
    while i <= last
        invariant
            i <= last + 1,
            last < chars.len(),
            last == chars.len() - p.len(),
            forall|j: int| 0 <= j < i ==> !occurs_at(chars@, p@, j),
        decreases last + 1 - i,
    {
        if matches_at(chars, p, i) {
            return true;
        }
        i += 1;
    }
    assert(forall|j: int| !occurs_at(chars@, p@, j));
    false
}

/// The first index of `c` in `chars`, or the length of `chars`.
pub fn index_of(chars: &[char], c: char) -> (i: usize)
    ensures
        i == first_index_of(chars@, c, 0),
        i <= chars.len(),
{
    let mut i: usize = 0;
    while i < chars.len() && chars[i] != c
        invariant
            i <= chars.len(),
            first_index_of(chars@, c, i as int) == first_index_of(chars@, c, 0),
        decreases chars.len() - i,
    {
        i += 1;
    }
    i
}

/// Whether the character `c` is in `chars`.
pub fn has_char(chars: &[char], c: char) -> (r: bool)
    ensures
        r == contains_char(chars@, c),
{
    proof {
        lemma_contains_char_iff(chars@, c);
    }
    index_of(chars, c) < chars.len()
}

// ---------------------------------------------------------------------------
// Occurrences
// ---------------------------------------------------------------------------

/// The number of occurrences of `p` in `s` at or after `from` that a scan
/// from left to right finds, each one starting where the one before ended.
pub open spec fn occurrences_from(s: Seq<char>, p: Seq<char>, from: int) -> nat
    decreases s.len() - from,
{
    if from < 0 || p.len() == 0 || from + p.len() > s.len() {
        0
    } else if occurs_at(s, p, from) {
        1 + occurrences_from(s, p, from + p.len())
    } else {
        occurrences_from(s, p, from + 1)
    }
}

/// The number of non-overlapping occurrences of `p` in `s`.
pub open spec fn occurrences(s: Seq<char>, p: Seq<char>) -> nat {
    occurrences_from(s, p, 0)
}

/// The number of non-overlapping occurrences of `p` in `chars`.
pub fn count_occurrences(chars: &[char], p: &[char]) -> (n: usize)
    ensures
        n == occurrences(chars@, p@),
{
    if p.len() == 0 || p.len() > chars.len() {
        return 0;
    }
    let last: usize = chars.len() - p.len();
    let mut n: usize = 0;
    let mut i: usize = 0;
    while i <= last
        invariant
            p.len() > 0,
            last == chars.len() - p.len(),
            i <= chars.len(),
            n + occurrences_from(chars@, p@, i as int) == occurrences(chars@, p@),
            n <= i,
        decreases chars.len() - i,
    {
        if matches_at(chars, p, i) {
            n += 1;
            i += p.len();
        } else {
            i += 1;
        }
    }
    n
}

// ---------------------------------------------------------------------------
// Words
// ---------------------------------------------------------------------------

/// Whether a word, a maximal run of characters that are not white space,
/// starts at index `i` of `s`.
pub open spec fn starts_word(s: Seq<char>, i: int) -> bool {
    0 <= i < s.len() && !is_white_space(s[i]) && (i == 0 || is_white_space(s[i - 1]))
}

/// The number of words that start before index `n`.
pub open spec fn words_before(s: Seq<char>, n: int) -> nat
    decreases n,
{
    if n <= 0 {
        0
    } else {
        words_before(s, n - 1) + if starts_word(s, n - 1) {
            1nat
        } else {
            0nat
        }
    }
}

/// The number of words in `s`.
pub open spec fn word_count(s: Seq<char>) -> nat {
    words_before(s, s.len() as int)
}

/// The end of the run of non-white-space characters that starts at `from`.
pub open spec fn word_end(s: Seq<char>, from: int) -> int
    decreases s.len() - from,
{
    if 0 <= from < s.len() && !is_white_space(s[from]) {
        word_end(s, from + 1)
    } else {
        from
    }
}

/// The word that starts at index `i` of `s`.
pub open spec fn word_at(s: Seq<char>, i: int) -> Seq<char> {
    s.subrange(i, word_end(s, i))
}

/// The number of words in `chars`.
pub fn count_words(chars: &[char]) -> (n: usize)
    ensures
        n == word_count(chars@),
{
    let mut n: usize = 0;
    let mut i: usize = 0;
    let mut after_space: bool = true;
    while i < chars.len()
        invariant
            i <= chars.len(),
            n == words_before(chars@, i as int),
            n <= i,
            after_space == (i == 0 || is_white_space(chars@[i - 1])),
        decreases chars.len() - i,
    {
        let space = char_is_white_space(chars[i]);
        if !space && after_space {
            n += 1;
        }
        after_space = space;
        i += 1;
    }
    n
}

/// The end of the word that starts at `from`.
pub(crate) fn end_of_word(chars: &[char], from: usize) -> (e: usize)
    requires
        from <= chars.len(),
    ensures
        e == word_end(chars@, from as int),
        from <= e <= chars.len(),
{
    let mut e: usize = from;
    while e < chars.len() && !char_is_white_space(chars[e])
        invariant
            from <= e <= chars.len(),
            word_end(chars@, e as int) == word_end(chars@, from as int),
        decreases chars.len() - e,
    {
        e += 1;
    }
    e
}

// ---------------------------------------------------------------------------
// Character classes of ASCII
// ---------------------------------------------------------------------------

/// `'0'` to `'9'`.
pub open spec fn is_ascii_digit(c: char) -> bool {
    '0' <= c <= '9'
}

/// `'a'` to `'z'` and `'A'` to `'Z'`.
pub open spec fn is_ascii_letter(c: char) -> bool {
    'a' <= c <= 'z' || 'A' <= c <= 'Z'
}

/// The punctuation characters of ASCII.
pub open spec fn is_ascii_punctuation(c: char) -> bool {
    let u = c as u32;
    33 <= u <= 47 || 58 <= u <= 64 || 91 <= u <= 96 || 123 <= u <= 126
}

pub fn char_is_ascii_digit(c: char) -> (r: bool)
    ensures
        r == is_ascii_digit(c),
{
    '0' <= c && c <= '9'
}

pub fn char_is_ascii_letter(c: char) -> (r: bool)
    ensures
        r == is_ascii_letter(c),
{
    ('a' <= c && c <= 'z') || ('A' <= c && c <= 'Z')
}

pub fn char_is_ascii_punctuation(c: char) -> (r: bool)
    ensures
        r == is_ascii_punctuation(c),
{
    let u: u32 = c as u32;
    (33 <= u && u <= 47) || (58 <= u && u <= 64) || (91 <= u && u <= 96) || (123 <= u && u <= 126)
}


// ---------------------------------------------------------------------------
// ASCII case folding
// ---------------------------------------------------------------------------

/// `c` with an upper-case ASCII letter turned into its lower-case form.
pub open spec fn ascii_lower(c: char) -> char {
    if 'A' <= c <= 'Z' {
        ((c as u8 + 32) as u8) as char
    } else {
        c
    }
}

/// `s` with every upper-case ASCII letter turned into its lower-case form.
pub open spec fn ascii_lowercase(s: Seq<char>) -> Seq<char> {
    s.map_values(|c: char| ascii_lower(c))
}

/// The lower-case form of `c` within ASCII.
pub fn to_ascii_lower(c: char) -> (r: char)
    ensures
        r == ascii_lower(c),
{
    if 'A' <= c && c <= 'Z' {
        let b: u8 = c as u8;
        (b + 32) as char
    } else {
        c
    }
}

/// The lower-case form of `chars` within ASCII.
pub fn to_ascii_lowercase(chars: &[char]) -> (out: Vec<char>)
    ensures
        out@ == ascii_lowercase(chars@),
{
    let mut out: Vec<char> = Vec::new();
    let mut i: usize = 0;
    while i < chars.len()
        invariant
            i <= chars.len(),
            out@ == ascii_lowercase(chars@.take(i as int)),
        decreases chars.len() - i,
    {
        out.push(to_ascii_lower(chars[i]));
        assert(out@ =~= ascii_lowercase(chars@.take(i + 1)));
        i += 1;
    }
    assert(chars@.take(chars.len() as int) == chars@);
    out
}

// ---------------------------------------------------------------------------
// Decimal numerals
// ---------------------------------------------------------------------------

/// The character of the decimal digit `d`.
pub open spec fn digit_char(d: nat) -> char {
    ((0x30 + d) as u8) as char
}

/// The decimal numeral of `n`, without leading zeros.
pub open spec fn decimal(n: nat) -> Seq<char>
    decreases n,
{
    if n < 10 {
        seq![digit_char(n)]
    } else {
        decimal(n / 10).push(digit_char(n % 10))
    }
}

/// A decimal numeral is not empty and holds digits only.
pub proof fn lemma_decimal_digits(n: nat)
    ensures
        decimal(n).len() > 0,
        forall|k: int| 0 <= k < decimal(n).len() ==> is_ascii_digit(#[trigger] decimal(n)[k]),
    decreases n,
{
    if n >= 10 {
        lemma_decimal_digits(n / 10);
    }
}

/// Appends the decimal numeral of `n` to `buf`.
pub fn push_decimal(buf: &mut Vec<char>, n: u64)
    ensures
        final(buf)@ == old(buf)@ + decimal(n as nat),
    decreases n,
{
    if n >= 10 {
        push_decimal(buf, n / 10);
    }
    let d: u8 = (n % 10) as u8;
    buf.push((0x30 + d) as char);
    proof {
        if n >= 10 {
            assert(buf@ =~= old(buf)@ + decimal(n as nat));
        } else {
            assert(buf@ =~= old(buf)@ + decimal(n as nat));
        }
    }
}

/// The value of the decimal digit `c`.
pub(crate) fn digit_value(c: char) -> (d: u8)
    requires
        is_ascii_digit(c),
    ensures
        d == c as u8 - 0x30,
        d <= 9,
{
    (c as u8) - 0x30
}

} // verus!
