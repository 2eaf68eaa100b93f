//! Shortening a text that is too wide: as many of its letters as fit, and an ellipsis.
//!
//! How wide a text is can only be measured by drawing it, so the search asks for one
//! measurement after the other.
use crate::text::{letters_of, text_between};
use vstd::prelude::*;

verus! {

/// A search for how many letters fit.
#[derive(Clone, Copy, Debug, PartialEq, Eq, Structural)]
pub struct EllipsisSearch {
    /// So many letters fit, as far as is known.
    pub low: usize,
    /// More letters do not fit.
    pub high: usize,
}

/// The letters to measure next.
pub open spec fn middle(search: EllipsisSearch) -> int {
    (search.low + search.high + 1) / 2
}

/// The search after a measurement.
pub open spec fn narrowed(search: EllipsisSearch, fits: bool) -> EllipsisSearch {
    if search.low >= search.high {
        search
    } else if fits {
        EllipsisSearch { low: middle(search) as usize, ..search }
    } else {
        EllipsisSearch { high: (middle(search) - 1) as usize, ..search }
    }
}

/// The shortened text that keeps so many letters.
pub open spec fn shortened(text: Seq<char>, letters: int) -> Seq<char> {
    text.take(letters).push('…')
}

impl EllipsisSearch {
    /// A search in a text of so many letters.
    pub fn new(letters: usize) -> (search: Self)
        ensures
            search == (EllipsisSearch { low: 0, high: letters }),
    {
        EllipsisSearch { low: 0, high: letters }
    }

    /// The number of letters to measure next, if the answer is not known yet.
    pub fn probe(&self) -> (letters: Option<usize>)
        ensures
            letters == if self.low < self.high {
                Some(middle(*self) as usize)
            } else {
                None
            },
    {
        if self.low < self.high {
            let gap: usize = self.high - self.low;
            Some(self.low + (gap - gap / 2))
        } else {
            None
        }
    }

    /// Takes a measurement.
    pub fn answer(&mut self, fits: bool)
        ensures
            *final(self) == narrowed(*old(self), fits),
    {
        if let Some(letters) = self.probe() {
            if fits {
                self.low = letters;
            } else {
                self.high = letters - 1;
            }
        }
    }
}

/// The shortened text that keeps so many letters.
pub fn candidate(text: &str, letters: usize) -> (short: String)
    requires
        letters <= text@.len(),
    ensures
        short@ == shortened(text@, letters as int),
{
    let all = letters_of(text);
    let mut short = text_between(&all, 0, letters);
    assert(short@ =~= text@.take(letters as int));
    short.push('…');
    short
}

/// What a search knows is true: of the letters that a test accepts, it has the most below
/// it and none above it.
pub open spec fn knows(search: EllipsisSearch, count: int, fits: spec_fn(int) -> bool) -> bool {
    &&& search.low <= search.high <= count
    &&& search.low == 0 || fits(search.low as int)
    &&& forall|letters: int| search.high < letters <= count ==> !#[trigger] fits(letters)
}

/// More letters never fit where fewer do not.
pub open spec fn grows(count: int, fits: spec_fn(int) -> bool) -> bool {
    forall|fewer: int, more: int|
        0 <= fewer <= more <= count && #[trigger] fits(more) ==> #[trigger] fits(fewer)
}

/// A search starts out right, every measurement keeps it right and brings it closer to its
/// end, and at the end it has found the most letters that fit.
pub proof fn searches_find_the_longest_text(
    search: EllipsisSearch,
    count: int,
    fits: spec_fn(int) -> bool,
)
    requires
        grows(count, fits),
        knows(search, count, fits),
    ensures
        count <= usize::MAX && count >= 0 ==> knows(
            EllipsisSearch { low: 0, high: count as usize },
            count,
            fits,
        ),
        search.low < search.high ==> {
            let after = narrowed(search, fits(middle(search)));
            &&& knows(after, count, fits)
            &&& after.high - after.low < search.high - search.low
        },
        search.low == search.high ==> forall|letters: int|
            0 < letters <= count && #[trigger] fits(letters) ==> letters <= search.low,
{
    if search.low < search.high {
        let place = middle(search);
        if !fits(place) {
            assert forall|letters: int| place - 1 < letters <= count implies !#[trigger] fits(
                letters,
            ) by {
                if fits(letters) {
                    assert(fits(place));
                }
            }
        }
    }
}

} // verus!
