//! Character-level text primitives shared by the classifiers.
//!
//! Text is modelled as a sequence of Unicode scalar values (`Seq<char>`).
//! The executable functions work on slices of characters; each says over
//! such sequences what it computes.

use vstd::prelude::*;

verus! {

/// The characters of `s`, in order.
pub fn chars_of(s: &str) -> (out: Vec<char>)
    ensures
        out@ == s@,
{
    let mut out: Vec<char> = Vec::new();
    for c in it: s.chars()
        invariant
            out@ == it.seq().take(it.index() as int),
            it.seq() == s@,
    {
        out.push(c);
    }
    out
}

/// The string made of the characters of `chars`, in order.
pub fn string_of(chars: &[char]) -> (out: String)
    ensures
        out@ == chars@,
{
    let mut out = String::new();
    let mut i: usize = 0;
    while i < chars.len()
        invariant
            i <= chars.len(),
            out@ == chars@.take(i as int),
        decreases chars.len() - i,
    {
        out.push(chars[i]);
        i += 1;
    }
    out
}

/// A copy of the characters `chars[from..to]`.
pub fn copy_range(chars: &[char], from: usize, to: usize) -> (out: Vec<char>)
    requires
        from <= to <= chars.len(),
    ensures
        out@ == chars@.subrange(from as int, to as int),
{
    let mut out: Vec<char> = Vec::new();
    let mut i: usize = from;
    while i < to
        invariant
            from <= i <= to <= chars.len(),
            out@ == chars@.subrange(from as int, i as int),
        decreases to - i,
    {
        out.push(chars[i]);
        i += 1;
    }
    out
}

/// Appends the characters of `tail` to `buf`.
pub fn append_chars(buf: &mut Vec<char>, tail: &[char])
    ensures
        final(buf)@ == old(buf)@ + tail@,
{
    let mut i: usize = 0;
    while i < tail.len()
        invariant
            i <= tail.len(),
            buf@ == old(buf)@ + tail@.take(i as int),
        decreases tail.len() - i,
    {
        buf.push(tail[i]);
        i += 1;
    }
    assert(tail@.take(tail.len() as int) == tail@);
}

// ---------------------------------------------------------------------------
// White space and trimming
// ---------------------------------------------------------------------------

/// The code points that carry the Unicode `White_Space` property.
pub open spec fn is_white_space(c: char) -> bool {
    let u = c as u32;
    ||| 0x09 <= u <= 0x0D
    ||| u == 0x20
    ||| u == 0x85
    ||| u == 0xA0
    ||| u == 0x1680
    ||| 0x2000 <= u <= 0x200A
    ||| u == 0x2028
    ||| u == 0x2029
    ||| u == 0x202F
    ||| u == 0x205F
    ||| u == 0x3000
}

/// Whether `c` is white space.
pub fn char_is_white_space(c: char) -> (r: bool)
    ensures
        r == is_white_space(c),
{
    let u: u32 = c as u32;
    (0x09 <= u && u <= 0x0D) || u == 0x20 || u == 0x85 || u == 0xA0 || u == 0x1680 || (0x2000 <= u
        && u <= 0x200A) || u == 0x2028 || u == 0x2029 || u == 0x202F || u == 0x205F || u == 0x3000
}

/// The first index at or after `from` that holds no white space, or the
/// length of `s` when there is none.
pub open spec fn skip_white_space(s: Seq<char>, from: int) -> int
    decreases s.len() - from,
{
    if 0 <= from < s.len() && is_white_space(s[from]) {
        skip_white_space(s, from + 1)
    } else {
        from
    }
}

/// The end of the last run of non-white-space characters that ends at or
/// before `to`: the least `k` such that `s[k..to]` is all white space.
pub open spec fn drop_white_space(s: Seq<char>, to: int) -> int
    decreases to,
{
    if 0 < to <= s.len() && is_white_space(s[to - 1]) {
        drop_white_space(s, to - 1)
    } else {
        to
    }
}

/// Where the trimmed text starts in `s`.
pub open spec fn trim_start_index(s: Seq<char>) -> int {
    skip_white_space(s, 0)
}

/// Where the trimmed text ends in `s`.
pub open spec fn trim_end_index(s: Seq<char>) -> int {
    let a = skip_white_space(s, 0);
    let b = drop_white_space(s, s.len() as int);
    if a <= b {
        b
    } else {
        a
    }
}

/// `s` without its leading white space.
pub open spec fn trim_start(s: Seq<char>) -> Seq<char> {
    s.subrange(trim_start_index(s), s.len() as int)
}

/// `s` without its leading and trailing white space.
pub open spec fn trim(s: Seq<char>) -> Seq<char> {
    s.subrange(trim_start_index(s), trim_end_index(s))
}

pub proof fn lemma_skip_white_space_bounds(s: Seq<char>, from: int)
    requires
        0 <= from <= s.len(),
    ensures
        from <= skip_white_space(s, from) <= s.len(),
        forall|k: int| from <= k < skip_white_space(s, from) ==> is_white_space(#[trigger] s[k]),
        skip_white_space(s, from) < s.len() ==> !is_white_space(s[skip_white_space(s, from)]),
    decreases s.len() - from,
{
    if from < s.len() && is_white_space(s[from]) {
        lemma_skip_white_space_bounds(s, from + 1);
    }
}

pub proof fn lemma_drop_white_space_bounds(s: Seq<char>, to: int)
    requires
        0 <= to <= s.len(),
    ensures
        0 <= drop_white_space(s, to) <= to,
        forall|k: int| drop_white_space(s, to) <= k < to ==> is_white_space(#[trigger] s[k]),
        drop_white_space(s, to) > 0 ==> !is_white_space(s[drop_white_space(s, to) - 1]),
    decreases to,
{
    if 0 < to && is_white_space(s[to - 1]) {
        lemma_drop_white_space_bounds(s, to - 1);
    }
}

/// The trimmed text lies inside `s`, and it neither starts nor ends with
/// white space.
pub proof fn lemma_trim_bounds(s: Seq<char>)
    ensures
        0 <= trim_start_index(s) <= trim_end_index(s) <= s.len(),
        trim(s).len() == trim_end_index(s) - trim_start_index(s),
        trim(s).len() > 0 ==> !is_white_space(trim(s)[0]) && !is_white_space(trim(s).last()),
        forall|k: int| 0 <= k < trim_start_index(s) ==> is_white_space(#[trigger] s[k]),
        forall|k: int| trim_end_index(s) <= k < s.len() ==> is_white_space(#[trigger] s[k]),
{
    lemma_skip_white_space_bounds(s, 0);
    lemma_drop_white_space_bounds(s, s.len() as int);
    let a = skip_white_space(s, 0);
    let b = drop_white_space(s, s.len() as int);
    if a > b {
        // every character is white space
        if a < s.len() {
            assert(is_white_space(s[a]));
        }
        assert(a == s.len());
    } else if a < b {
        assert(b > 0);
        assert(trim(s)[0] == s[a]);
        assert(trim(s).last() == s[b - 1]);
    }
}

/// The index range `[a, b)` of the trimmed text inside `chars`.
pub fn trim_range(chars: &[char]) -> (r: (usize, usize))
    ensures
        r.0 == trim_start_index(chars@),
        r.1 == trim_end_index(chars@),
        r.0 <= r.1 <= chars.len(),
{
    let n: usize = chars.len();
    let mut a: usize = 0;
    while a < n && char_is_white_space(chars[a])
        invariant
            a <= n,
            n == chars.len(),
            skip_white_space(chars@, a as int) == skip_white_space(chars@, 0),
        decreases n - a,
    {
        a += 1;
    }
    let mut b: usize = n;
    while b > 0 && char_is_white_space(chars[b - 1])
        invariant
            b <= n,
            n == chars.len(),
            drop_white_space(chars@, b as int) == drop_white_space(chars@, n as int),
        decreases b,
    {
        b -= 1;
    }
    proof {
        lemma_trim_bounds(chars@);
    }
    if a <= b {
        (a, b)
    } else {
        (a, a)
    }
}

/// `chars` without its leading and trailing white space.
pub fn trimmed(chars: &[char]) -> (out: Vec<char>)
    ensures
        out@ == trim(chars@),
{
    let (a, b) = trim_range(chars);
    copy_range(chars, a, b)
}

/// `chars` without its leading white space.
pub fn trimmed_start(chars: &[char]) -> (out: Vec<char>)
    ensures
        out@ == trim_start(chars@),
{
    let (a, _b) = trim_range(chars);
    copy_range(chars, a, chars.len())
}

/// White space up to a character that is none is skipped up to there.
pub proof fn lemma_skip_white_space_to(s: Seq<char>, from: int, k: int)
    requires
        0 <= from <= k <= s.len(),
        forall|j: int| from <= j < k ==> is_white_space(#[trigger] s[j]),
        k == s.len() || !is_white_space(s[k]),
    ensures
        skip_white_space(s, from) == k,
    decreases k - from,
{
    if from < k {
        assert(is_white_space(s[from]));
        lemma_skip_white_space_to(s, from + 1, k);
    }
}

/// White space back to a character that is none is dropped back to there.
pub proof fn lemma_drop_white_space_to(s: Seq<char>, to: int, k: int)
    requires
        0 <= k <= to <= s.len(),
        forall|j: int| k <= j < to ==> is_white_space(#[trigger] s[j]),
        k == 0 || !is_white_space(s[k - 1]),
    ensures
        drop_white_space(s, to) == k,
    decreases to - k,
{
    if k < to {
        assert(is_white_space(s[to - 1]));
        lemma_drop_white_space_to(s, to - 1, k);
    }
}

/// A text that neither starts nor ends with white space is what is left
/// when white space is put before and after it and trimmed away again.
pub proof fn lemma_trim_of_wrapped(pad: Seq<char>, core: Seq<char>, tail: Seq<char>)
    requires
        forall|j: int| 0 <= j < pad.len() ==> is_white_space(#[trigger] pad[j]),
        forall|j: int| 0 <= j < tail.len() ==> is_white_space(#[trigger] tail[j]),
        core.len() > 0,
        !is_white_space(core[0]),
        !is_white_space(core.last()),
    ensures
        trim(pad + core + tail) == core,
{
    let s = pad + core + tail;
    let a = pad.len() as int;
    let b = (pad.len() + core.len()) as int;
    assert(s[a] == core[0]);
    assert(s[b - 1] == core.last());
    assert forall|j: int| 0 <= j < a implies is_white_space(#[trigger] s[j]) by {
        assert(s[j] == pad[j]);
    }
    assert forall|j: int| b <= j < s.len() implies is_white_space(#[trigger] s[j]) by {
        assert(s[j] == tail[j - b]);
    }
    lemma_skip_white_space_to(s, 0, a);
    lemma_drop_white_space_to(s, s.len() as int, b);
    assert(s.subrange(a, b) =~= core);
}

/// A text that neither starts nor ends with white space is what is left
/// when white space is put before it and trimmed away again.
pub proof fn lemma_trim_of_padded(pad: Seq<char>, core: Seq<char>)
    requires
        forall|j: int| 0 <= j < pad.len() ==> is_white_space(#[trigger] pad[j]),
        core.len() > 0,
        !is_white_space(core[0]),
        !is_white_space(core.last()),
    ensures
        trim(pad + core) == core,
{
    lemma_trim_of_wrapped(pad, core, Seq::empty());
    assert(pad + core + Seq::<char>::empty() =~= pad + core);
}

/// Trimming a trimmed text changes nothing.
pub proof fn lemma_trim_idempotent(s: Seq<char>)
    ensures
        trim(trim(s)) == trim(s),
{
    lemma_trim_bounds(s);
    let t = trim(s);
    if t.len() > 0 {
        lemma_trim_of_padded(Seq::empty(), t);
        assert(Seq::<char>::empty() + t =~= t);
    } else {
        lemma_trim_bounds(t);
        assert(trim(t) =~= t);
    }
}

} // verus!
