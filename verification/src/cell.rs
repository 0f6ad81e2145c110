//! Table cells: what kind of value a cell holds and how it is aligned.

use vstd::prelude::*;
use crate::model::{
    plain_formatting, CellDataType, CellModel, TableCell, TextAlignment, TextFormatting,
};
use crate::scan::{
    ascii_lowercase, char_is_ascii_digit, ends_with, ends_with_char, is_ascii_digit,
    to_ascii_lowercase,
};
use crate::text::{chars_of, copy_range, trim, trimmed};
use crate::trusted::{count_graphemes, grapheme_count};

verus! {

// ---------------------------------------------------------------------------
// Numerals
// ---------------------------------------------------------------------------

/// The first index at or after `from` that holds no ASCII digit, or the
/// length of `s`.
pub open spec fn skip_digits(s: Seq<char>, from: int) -> int
    decreases s.len() - from,
{
    if 0 <= from < s.len() && is_ascii_digit(s[from]) {
        skip_digits(s, from + 1)
    } else {
        from
    }
}

/// Whether `c` is a sign, `+` or `-`.
pub open spec fn is_sign(c: char) -> bool {
    c == '+' || c == '-'
}

/// Whether `s`, lower-case and without a sign, is a decimal number as a
/// floating-point literal has it: digits with at most one dot among them
/// and at least one digit, and then, maybe, `e`, a sign or none, and at
/// least one digit.
pub open spec fn is_float_number(s: Seq<char>) -> bool {
    let a = skip_digits(s, 0);
    let has_dot = a < s.len() && s[a] == '.';
    let b = if has_dot {
        skip_digits(s, a + 1)
    } else {
        a
    };
    let digits = if has_dot {
        b - 1
    } else {
        a
    };
    digits > 0 && (b == s.len() || (b < s.len() && s[b] == 'e' && {
        let c = if b + 1 < s.len() && is_sign(s[b + 1]) {
            b + 2
        } else {
            b + 1
        };
        let d = skip_digits(s, c);
        d > c && d == s.len()
    }))
}

/// Whether `s` is a floating-point literal: in any mix of ASCII cases, an
/// optional sign and then `inf`, `infinity`, `nan` or a decimal number.
pub open spec fn is_float_literal(s: Seq<char>) -> bool {
    let l = ascii_lowercase(s);
    let body = if l.len() > 0 && is_sign(l[0]) {
        l.subrange(1, l.len() as int)
    } else {
        l
    };
    body == "inf"@ || body == "infinity"@ || body == "nan"@ || is_float_number(body)
}

/// `s` without the characters `c`.
pub open spec fn without_char(s: Seq<char>, c: char) -> Seq<char>
    decreases s.len(),
{
    if s.len() == 0 {
        Seq::empty()
    } else if s.last() == c {
        without_char(s.drop_last(), c)
    } else {
        without_char(s.drop_last(), c).push(s.last())
    }
}

/// The number that the digits `s` write in base ten.
pub open spec fn decimal_value(s: Seq<char>) -> nat
    decreases s.len(),
{
    if s.len() == 0 {
        0
    } else {
        (decimal_value(s.drop_last()) * 10 + (s.last() as u8 - 0x30)) as nat
    }
}

/// Whether `digits` is a run of at least one ASCII digit whose value fits
/// in 32 bits.
pub open spec fn is_u32_digits(digits: Seq<char>) -> bool {
    &&& digits.len() > 0
    &&& forall|k: int| 0 <= k < digits.len() ==> is_ascii_digit(#[trigger] digits[k])
    &&& decimal_value(digits) <= u32::MAX
}

/// Whether `s` is a 32-bit unsigned number in decimal: an optional `+`, at
/// least one digit and nothing else, and a value that fits.
pub open spec fn is_u32_literal(s: Seq<char>) -> bool {
    if s.len() > 0 && s[0] == '+' {
        is_u32_digits(s.subrange(1, s.len() as int))
    } else {
        is_u32_digits(s)
    }
}

/// The value of digits does not shrink as digits are appended.
pub proof fn lemma_decimal_value_grows(s: Seq<char>, n: int)
    requires
        0 <= n <= s.len(),
        forall|k: int| 0 <= k < s.len() ==> is_ascii_digit(#[trigger] s[k]),
    ensures
        decimal_value(s.take(n)) <= decimal_value(s),
    decreases s.len() - n,
{
    if n < s.len() {
        let front = s.drop_last();
        assert(front.take(n) == s.take(n));
        lemma_decimal_value_grows(front, n);
        assert(is_ascii_digit(s[s.len() - 1]));
    } else {
        assert(s.take(n) == s);
    }
}

/// The first index at or after `from` that holds no ASCII digit.
pub(crate) fn digits_end(s: &[char], from: usize) -> (e: usize)
    requires
        from <= s.len(),
    ensures
        e == skip_digits(s@, from as int),
        from <= e <= s.len(),
{
    let mut e: usize = from;
    while e < s.len() && char_is_ascii_digit(s[e])
        invariant
            from <= e <= s.len(),
            skip_digits(s@, e as int) == skip_digits(s@, from as int),
        decreases s.len() - e,
    {
        e += 1;
    }
    e
}

fn float_number(s: &[char]) -> (r: bool)
    ensures
        r == is_float_number(s@),
{
    let n: usize = s.len();
    let a = digits_end(s, 0);
    let has_dot = a < n && s[a] == '.';
    let b: usize = if has_dot {
        digits_end(s, a + 1)
    } else {
        a
    };
    let digits: usize = if has_dot {
        b - 1
    } else {
        a
    };
    if digits == 0 {
        return false;
    }
    if b == n {
        return true;
    }
    if s[b] != 'e' {
        return false;
    }
    let c: usize = if b + 1 < n && (s[b + 1] == '+' || s[b + 1] == '-') {
        b + 2
    } else {
        b + 1
    };
    let d = digits_end(s, c);
    d > c && d == n
}

/// Whether two texts are the same.
pub fn same_chars(a: &[char], b: &[char]) -> (r: bool)
    ensures
        r == (a@ == b@),
{
    if a.len() != b.len() {
        return false;
    }
    let mut i: usize = 0;
    while i < a.len()
        invariant
            i <= a.len(),
            a.len() == b.len(),
            forall|k: int| 0 <= k < i ==> a@[k] == b@[k],
        decreases a.len() - i,
    {
        if a[i] != b[i] {
            return false;
        }
        i += 1;
    }
    assert(a@ =~= b@);
    true
}

/// Whether the text `s` is the literal `word`.
pub fn is_word(s: &[char], word: &str) -> (r: bool)
    ensures
        r == (s@ == word@),
{
    let w = chars_of(word);
    same_chars(s, w.as_slice())
}

/// Whether `s` is a floating-point literal.
pub fn float_literal(s: &[char]) -> (r: bool)
    ensures
        r == is_float_literal(s@),
{
    let l = to_ascii_lowercase(s);
    let body = if l.len() > 0 && (l[0] == '+' || l[0] == '-') {
        copy_range(l.as_slice(), 1, l.len())
    } else {
        copy_range(l.as_slice(), 0, l.len())
    };
    proof {
        if !(l@.len() > 0 && is_sign(l@[0])) {
            assert(body@ =~= l@);
        }
    }
    let body = body.as_slice();
    is_word(body, "inf") || is_word(body, "infinity") || is_word(body, "nan") || float_number(body)
}

/// `s` without the characters `c`.
pub fn remove_char(s: &[char], c: char) -> (out: Vec<char>)
    ensures
        out@ == without_char(s@, c),
{
    let mut out: Vec<char> = Vec::new();
    let mut i: usize = 0;
    while i < s.len()
        invariant
            i <= s.len(),
            out@ == without_char(s@.take(i as int), c),
        decreases s.len() - i,
    {
        proof {
            let now = s@.take(i + 1);
            assert(now.drop_last() == s@.take(i as int));
            assert(now.last() == s@[i as int]);
        }
        if s[i] != c {
            out.push(s[i]);
        }
        i += 1;
    }
    assert(s@.take(s.len() as int) == s@);
    out
}

fn u32_digits(digits: &[char]) -> (r: bool)
    ensures
        r == is_u32_digits(digits@),
{
    if digits.len() == 0 {
        return false;
    }
    let mut value: u64 = 0;
    let mut i: usize = 0;
    while i < digits.len()
        invariant
            i <= digits.len(),
            forall|k: int| 0 <= k < i ==> is_ascii_digit(#[trigger] digits@[k]),
            value == decimal_value(digits@.take(i as int)),
            value <= u32::MAX,
        decreases digits.len() - i,
    {
        let c = digits[i];
        if !char_is_ascii_digit(c) {
            assert(!is_ascii_digit(digits@[i as int]));
            return false;
        }
        proof {
            let now = digits@.take(i + 1);
            assert(now.drop_last() == digits@.take(i as int));
            assert(now.last() == c);
        }
        let d: u64 = ((c as u8) - 0x30) as u64;
        value = value * 10 + d;
        if value > 0xFFFF_FFFF {
            proof {
                if forall|k: int| 0 <= k < digits@.len() ==> is_ascii_digit(#[trigger] digits@[k]) {
                    lemma_decimal_value_grows(digits@, i + 1);
                }
            }
            return false;
        }
        i += 1;
    }
    assert(digits@.take(digits.len() as int) == digits@);
    true
}

/// Whether `s` is a 32-bit unsigned number in decimal.
pub fn u32_literal(s: &[char]) -> (r: bool)
    ensures
        r == is_u32_literal(s@),
{
    if s.len() > 0 && s[0] == '+' {
        let digits = copy_range(s, 1, s.len());
        u32_digits(digits.as_slice())
    } else {
        u32_digits(s)
    }
}

// ---------------------------------------------------------------------------
// Dates
// ---------------------------------------------------------------------------

/// Whether `c` parts the fields of a date, `/` or `-`.
pub open spec fn is_date_separator(c: char) -> bool {
    c == '/' || c == '-'
}

/// The first index at or after `from` that holds a date separator, or the
/// length of `s`.
pub open spec fn next_separator(s: Seq<char>, from: int) -> int
    decreases s.len() - from,
{
    if 0 <= from < s.len() && !is_date_separator(s[from]) {
        next_separator(s, from + 1)
    } else {
        from
    }
}

/// Whether `t` is made of exactly three fields parted by `/` or `-`, each
/// of them a 32-bit unsigned number.
pub open spec fn is_date_like(t: Seq<char>) -> bool {
    let i = next_separator(t, 0);
    let j = next_separator(t, i + 1);
    let k = next_separator(t, j + 1);
    &&& i < t.len()
    &&& j < t.len()
    &&& k >= t.len()
    &&& is_u32_literal(t.subrange(0, i))
    &&& is_u32_literal(t.subrange(i + 1, j))
    &&& is_u32_literal(t.subrange(j + 1, t.len() as int))
}

fn separator_from(s: &[char], from: usize) -> (e: usize)
    requires
        from <= s.len(),
    ensures
        e == next_separator(s@, from as int),
        from <= e <= s.len(),
{
    let mut e: usize = from;
    while e < s.len() && !(s[e] == '/' || s[e] == '-')
        invariant
            from <= e <= s.len(),
            next_separator(s@, e as int) == next_separator(s@, from as int),
        decreases s.len() - e,
    {
        e += 1;
    }
    e
}

fn date_like(t: &[char]) -> (r: bool)
    ensures
        r == is_date_like(t@),
{
    let n: usize = t.len();
    let i = separator_from(t, 0);
    if i >= n {
        return false;
    }
    let j = separator_from(t, i + 1);
    if j >= n {
        return false;
    }
    let k = separator_from(t, j + 1);
    if k < n {
        return false;
    }
    let first = copy_range(t, 0, i);
    let second = copy_range(t, i + 1, j);
    let third = copy_range(t, j + 1, n);
    u32_literal(first.as_slice()) && u32_literal(second.as_slice()) && u32_literal(
        third.as_slice(),
    )
}

// ---------------------------------------------------------------------------
// The kind of a cell
// ---------------------------------------------------------------------------

/// Whether `c` is one of the currency signs `$`, `€`, `£`.
pub open spec fn is_currency_sign(c: char) -> bool {
    c == '$' || c == '€' || c == '£'
}

/// Whether `t`, in any mix of ASCII cases, is one of `true`, `false`,
/// `yes`, `no`, `y`, `n`.
pub open spec fn is_boolean_word(t: Seq<char>) -> bool {
    let l = ascii_lowercase(t);
    l == "true"@ || l == "false"@ || l == "yes"@ || l == "no"@ || l == "y"@ || l == "n"@
}

/// The kind of value that a cell with the text `content` holds. The rules
/// are tried in this order on the trimmed text and the first that holds
/// decides: empty; a currency sign in front; a `%` at the end; a boolean
/// word; a floating-point literal once the commas are taken out; a date;
/// else text.
pub open spec fn cell_data_type(content: Seq<char>) -> CellDataType {
    let t = trim(content);
    if t.len() == 0 {
        CellDataType::Empty
    } else if is_currency_sign(t[0]) {
        CellDataType::Currency
    } else if ends_with_char(t, '%') {
        CellDataType::Percentage
    } else if is_boolean_word(t) {
        CellDataType::Boolean
    } else if is_float_literal(without_char(t, ',')) {
        CellDataType::Number
    } else if is_date_like(t) {
        CellDataType::Date
    } else {
        CellDataType::Text
    }
}

/// Whether a kind of value belongs to the numeric family: number, currency
/// or percentage.
pub open spec fn is_numeric_type(data_type: CellDataType) -> bool {
    data_type == CellDataType::Number || data_type == CellDataType::Currency || data_type
        == CellDataType::Percentage
}

/// The alignment that goes with a kind of value: right for the numeric
/// family, centred for booleans, else left.
pub open spec fn type_alignment(data_type: CellDataType) -> TextAlignment {
    if is_numeric_type(data_type) {
        TextAlignment::Right
    } else if data_type == CellDataType::Boolean {
        TextAlignment::Center
    } else {
        TextAlignment::Left
    }
}

/// The kind of value that the characters `content` hold.
pub fn data_type_of_chars(content: &[char]) -> (r: CellDataType)
    ensures
        r == cell_data_type(content@),
{
    let t = trimmed(content);
    let t = t.as_slice();
    if t.len() == 0 {
        return CellDataType::Empty;
    }
    if t[0] == '$' || t[0] == '€' || t[0] == '£' {
        return CellDataType::Currency;
    }
    if ends_with(t, '%') {
        return CellDataType::Percentage;
    }
    let l = to_ascii_lowercase(t);
    let l = l.as_slice();
    if is_word(l, "true") || is_word(l, "false") || is_word(l, "yes") || is_word(l, "no")
        || is_word(l, "y") || is_word(l, "n") {
        return CellDataType::Boolean;
    }
    let candidate = remove_char(t, ',');
    if float_literal(candidate.as_slice()) {
        return CellDataType::Number;
    }
    if date_like(t) {
        return CellDataType::Date;
    }
    CellDataType::Text
}

/// The kind of value that a cell with the text `content` holds.
pub fn detect_cell_data_type(content: &str) -> (r: CellDataType)
    ensures
        r == cell_data_type(content@),
{
    let cs = chars_of(content);
    data_type_of_chars(cs.as_slice())
}

/// The alignment that goes with a kind of value.
pub fn default_alignment_for_type(data_type: CellDataType) -> (r: TextAlignment)
    ensures
        r == type_alignment(data_type),
{
    match data_type {
        CellDataType::Number | CellDataType::Currency | CellDataType::Percentage => {
            TextAlignment::Right
        },
        CellDataType::Boolean => TextAlignment::Center,
        _ => TextAlignment::Left,
    }
}

/// The cell that a text makes: typed by the text, aligned by the type, with
/// plain formatting.
pub open spec fn cell_of_text(content: Seq<char>) -> CellModel {
    CellModel {
        content,
        alignment: type_alignment(cell_data_type(content)),
        formatting: plain_formatting(),
        data_type: cell_data_type(content),
    }
}

impl TableCell {
    /// A cell with the text `content`, typed by the text and aligned by the
    /// type.
    pub fn new(content: String) -> (cell: Self)
        ensures
            cell@ == cell_of_text(content@),
    {
        let data_type = detect_cell_data_type(content.as_str());
        let alignment = default_alignment_for_type(data_type);
        TableCell { content, alignment, formatting: TextFormatting::default(), data_type }
    }

    /// This cell with another alignment.
    pub fn _with_alignment(self, alignment: TextAlignment) -> (cell: Self)
        ensures
            cell@ == (CellModel { alignment, ..self@ }),
    {
        let mut cell = self;
        cell.alignment = alignment;
        cell
    }

    /// This cell with another formatting.
    pub fn with_formatting(self, formatting: TextFormatting) -> (cell: Self)
        ensures
            cell@ == (CellModel { formatting: formatting@, ..self@ }),
    {
        let mut cell = self;
        cell.formatting = formatting;
        cell
    }

    /// The width of the cell on screen: the number of grapheme clusters of
    /// its text.
    pub fn display_width(&self) -> (w: usize)
        ensures
            w == grapheme_count(self.content@),
    {
        count_graphemes(self.content.as_str())
    }
}

} // verus!
