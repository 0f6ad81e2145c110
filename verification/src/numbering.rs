//! Heading numbers: the number synthesized from numbering metadata, and the
//! tracker that numbers the headings that carry no number of their own.

use vstd::prelude::*;
use crate::scan::{decimal, lemma_decimal_digits, push_decimal};
use crate::text::string_of;

verus! {

/// The number of heading levels that the tracker counts.
pub const TRACKED_LEVELS: usize = 6;

/// The number for the heading style level alone: `1`, `1.1`, `1.1.1`, and
/// `1.1.1.1` for level 4 and deeper.
pub open spec fn number_for_style_level(heading_level: u8) -> Seq<char> {
    if heading_level == 1 {
        "1"@
    } else if heading_level == 2 {
        "1.1"@
    } else if heading_level == 3 {
        "1.1.1"@
    } else {
        "1.1.1.1"@
    }
}

/// The number synthesized for a heading with numbering metadata: the table
/// keyed on numbering level and heading style level, and for the pairs that
/// the table does not hold the number for the style level alone.
pub open spec fn synthesized_number(numbering_level: u8, heading_level: u8) -> Seq<char> {
    if numbering_level == 0 && heading_level == 1 {
        "1"@
    } else if numbering_level == 1 && heading_level == 2 {
        "1.1"@
    } else if numbering_level == 2 && heading_level == 3 {
        "1.1.1"@
    } else if numbering_level == 3 && heading_level == 4 {
        "1.1.1.1"@
    } else {
        number_for_style_level(heading_level)
    }
}

/// The synthesized number depends on the heading style level alone.
pub proof fn lemma_synthesized_number_by_style_level(numbering_level: u8, heading_level: u8)
    ensures
        synthesized_number(numbering_level, heading_level) == number_for_style_level(
            heading_level,
        ),
{
}

/// The number of a heading that carries numbering metadata. The numbering
/// id plays no part in it.
pub fn reconstruct_heading_number(num_id: u64, level: u8, heading_level: u8) -> (number: String)
    ensures
        number@ == synthesized_number(level, heading_level),
{
    let text: &str = if level == 0 && heading_level == 1 {
        "1"
    } else if level == 1 && heading_level == 2 {
        "1.1"
    } else if level == 2 && heading_level == 3 {
        "1.1.1"
    } else if level == 3 && heading_level == 4 {
        "1.1.1.1"
    } else if heading_level == 1 {
        "1"
    } else if heading_level == 2 {
        "1.1"
    } else if heading_level == 3 {
        "1.1.1"
    } else {
        "1.1.1.1"
    };
    text.to_owned()
}

/// The counter that a heading level belongs to: level 1 and below to the
/// first, level 6 and above to the last.
pub open spec fn level_index(level: u8) -> int {
    if level <= 1 {
        0
    } else if level >= TRACKED_LEVELS {
        TRACKED_LEVELS - 1
    } else {
        level - 1
    }
}

/// A counter one higher; a counter at the highest number that it can hold
/// stays there.
pub open spec fn raised(count: u64) -> u64 {
    if count < u64::MAX {
        (count + 1) as u64
    } else {
        count
    }
}

/// The counters after a heading at index `idx`: that counter one higher,
/// the deeper ones zero, the others as they were.
pub open spec fn bumped(counters: Seq<u64>, idx: int) -> Seq<u64> {
    Seq::new(
        TRACKED_LEVELS as nat,
        |k: int|
            if k < idx {
                counters[k]
            } else if k == idx {
                raised(counters[k])
            } else {
                0u64
            },
    )
}

/// A heading raises the counter of its level by one, sets the counters of
/// all deeper levels to zero and leaves those of the levels above alone.
pub proof fn lemma_bumped(counters: Seq<u64>, idx: int)
    requires
        counters.len() == TRACKED_LEVELS,
        0 <= idx < TRACKED_LEVELS,
        counters[idx] < u64::MAX,
    ensures
        bumped(counters, idx).len() == TRACKED_LEVELS,
        bumped(counters, idx)[idx] == counters[idx] + 1,
        forall|k: int| 0 <= k < idx ==> #[trigger] bumped(counters, idx)[k] == counters[k],
        forall|k: int| idx < k < TRACKED_LEVELS ==> #[trigger] bumped(counters, idx)[k] == 0,
{
}

/// The decimal numerals of the counters before index `upto` that are not
/// zero, joined by dots.
pub open spec fn rendered_number(counters: Seq<u64>, upto: int) -> Seq<char>
    decreases upto,
{
    if upto <= 0 {
        Seq::empty()
    } else {
        let before = rendered_number(counters, upto - 1);
        let c = counters[upto - 1];
        if c == 0 {
            before
        } else if before.len() == 0 {
            decimal(c as nat)
        } else {
            before + seq!['.'] + decimal(c as nat)
        }
    }
}

/// The state of automatic heading numbering: one counter for each of six
/// levels.
#[derive(Debug)]
pub struct HeadingNumberTracker {
    counters: [u64; 6],
}

impl HeadingNumberTracker {
    /// The six counters, the one of level 1 first.
    pub closed spec fn counters(&self) -> Seq<u64> {
        self.counters@
    }

    /// There are six counters.
    pub proof fn lemma_six_counters(&self)
        ensures
            self.counters().len() == TRACKED_LEVELS,
    {
    }

    /// A tracker whose counters are all zero.
    pub fn new() -> (t: Self)
        ensures
            t.counters() == Seq::new(TRACKED_LEVELS as nat, |k: int| 0u64),
    {
        let t = HeadingNumberTracker { counters: [0, 0, 0, 0, 0, 0] };
        assert(t.counters@ =~= Seq::new(TRACKED_LEVELS as nat, |k: int| 0u64));
        t
    }

    /// The value of the counter that `level` belongs to.
    pub fn count_at(&self, level: u8) -> (c: u64)
        ensures
            c == self.counters()[level_index(level)],
    {
        let idx: usize = if level <= 1 {
            0
        } else if level as usize >= TRACKED_LEVELS {
            TRACKED_LEVELS - 1
        } else {
            (level - 1) as usize
        };
        self.counters[idx]
    }

    /// Counts a heading of level `level` and gives its number: the counter
    /// of the level goes up by one, the counters of all deeper levels go to
    /// zero, and the number is made of the counters down to this level that
    /// are not zero, joined by dots. A counter at the highest number that
    /// it can hold stays there.
    pub fn get_number(&mut self, level: u8) -> (number: String)
        ensures
            final(self).counters() == bumped(old(self).counters(), level_index(level)),
            number@ == rendered_number(final(self).counters(), level_index(level) + 1),
    {
        let idx: usize = if level <= 1 {
            0
        } else if level as usize >= TRACKED_LEVELS {
            TRACKED_LEVELS - 1
        } else {
            (level - 1) as usize
        };
        let next: u64 = if self.counters[idx] < u64::MAX {
            self.counters[idx] + 1
        } else {
            self.counters[idx]
        };
        self.counters[idx] = next;
        let mut k: usize = idx + 1;
        while k < TRACKED_LEVELS
            invariant
                idx < k <= TRACKED_LEVELS,
                forall|j: int| 0 <= j < idx ==> self.counters@[j] == old(self).counters@[j],
                self.counters@[idx as int] == next,
                forall|j: int| idx < j < k ==> self.counters@[j] == 0,
            decreases TRACKED_LEVELS - k,
        {
            self.counters[k] = 0;
            k += 1;
        }
        assert(self.counters@ =~= bumped(old(self).counters@, idx as int));
        let mut out: Vec<char> = Vec::new();
        let mut i: usize = 0;
        while i <= idx
            invariant
                i <= idx + 1,
                idx < TRACKED_LEVELS,
                out@ == rendered_number(self.counters@, i as int),
            decreases idx + 1 - i,
        {
            let c: u64 = self.counters[i];
            if c > 0 {
                if out.len() > 0 {
                    out.push('.');
                }
                push_decimal(&mut out, c);
                proof {
                    lemma_decimal_digits(c as nat);
                }
            }
            i += 1;
        }
        string_of(out.as_slice())
    }
}

} // verus!
