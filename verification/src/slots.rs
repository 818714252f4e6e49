//! The output slots that the kernel fills, and the matches read from them.
//!
//! Slot 0 holds the number of matches that the kernel reports; the slots
//! after it hold the matches, in the order in which the kernel wrote them.
//! The kernel may report more matches than there are slots to hold them:
//! only the stored ones are read.

use crate::text::{join_decimal, joined, lemma_joined_separators, occurrences, separator};
use vstd::prelude::*;

verus! {

/// The number of words in the output slots.
pub const SLOT_WORDS: usize = 10;

/// The number of matches that the slots can hold.
pub const MATCH_CAPACITY: usize = 9;

/// The number of matches stored in `words`: the reported count, but no more
/// than the slots after the first can hold.
pub open spec fn stored_count(words: Seq<u32>) -> nat {
    if words[0] as nat <= MATCH_CAPACITY as nat {
        words[0] as nat
    } else {
        MATCH_CAPACITY as nat
    }
}

/// The matches stored in `words`, in slot order.
pub open spec fn stored_matches(words: Seq<u32>) -> Seq<u32> {
    words.subrange(1, 1 + stored_count(words) as int)
}

/// Whether `words` reports more matches than it stores.
pub open spec fn reports_overflow(words: Seq<u32>) -> bool {
    words[0] as nat > MATCH_CAPACITY as nat
}

/// What one search found: the count that the kernel reported, and the
/// matches that the slots held.
#[derive(PartialEq, Eq, Debug)]
pub struct SearchResult {
    reported: u32,
    values: Vec<u32>,
}

impl SearchResult {
    #[verifier::type_invariant]
    spec fn stored_fits_report(&self) -> bool {
        self.values@.len() == if self.reported as nat <= MATCH_CAPACITY as nat {
            self.reported as nat
        } else {
            MATCH_CAPACITY as nat
        }
    }

    /// The count that the kernel reported.
    pub closed spec fn reported_spec(&self) -> u32 {
        self.reported
    }

    /// The matches that were stored.
    pub closed spec fn values_spec(&self) -> Seq<u32> {
        self.values@
    }

    /// Reads the result out of the slots: the count from slot 0 and the
    /// stored matches from the slots after it, never past the last slot.
    pub fn from_slots(words: &[u32; 10]) -> (result: SearchResult)
        ensures
            result.reported_spec() == words@[0],
            result.values_spec() == stored_matches(words@),
    {
        let reported: u32 = words[0];
        let stored: usize = if reported as u64 <= MATCH_CAPACITY as u64 {
            reported as usize
        } else {
            MATCH_CAPACITY
        };
        let mut values: Vec<u32> = Vec::new();
        let mut i: usize = 0;
        while i < stored
            invariant
                i <= stored <= MATCH_CAPACITY,
                values@ == words@.subrange(1, 1 + i),
            decreases stored - i,
        {
            values.push(words[i + 1]);
            assert(values@ =~= words@.subrange(1, 1 + i + 1));
            i += 1;
        }
        SearchResult { reported, values }
    }

    /// The count that the kernel reported, which may exceed the number of
    /// stored matches.
    #[verifier::when_used_as_spec(reported_spec)]
    pub fn reported(&self) -> (count: u32)
        ensures
            count == self.reported_spec(),
    {
        self.reported
    }

    /// The number of stored matches.
    pub fn count(&self) -> (count: usize)
        ensures
            count == self.values_spec().len(),
            count <= MATCH_CAPACITY,
            count as nat == if self.reported_spec() as nat <= MATCH_CAPACITY as nat {
                self.reported_spec() as nat
            } else {
                MATCH_CAPACITY as nat
            },
    {
        proof {
            use_type_invariant(self);
        }
        self.values.len()
    }

    /// The stored matches, in slot order.
    pub fn values(&self) -> (values: &Vec<u32>)
        ensures
            values@ == self.values_spec(),
    {
        &self.values
    }

    /// Whether the kernel reported more matches than the slots could hold,
    /// so that some were lost.
    pub fn overflowed(&self) -> (lost: bool)
        ensures
            lost == (self.reported_spec() as nat > MATCH_CAPACITY as nat),
    {
        self.reported as u64 > MATCH_CAPACITY as u64
    }

    /// The stored matches in decimal, joined by commas.
    pub fn render(&self) -> (text: String)
        ensures
            text@ == joined(self.values_spec()),
    {
        join_decimal(self.values.as_slice())
    }
}

/// The text of the matches stored in `words`: each in decimal, joined by
/// commas; empty when the count is zero. A count above the capacity is read
/// as the capacity.
pub fn decode(words: &[u32; 10]) -> (text: String)
    ensures
        text@ == joined(stored_matches(words@)),
        words@[0] == 0 ==> text@.len() == 0,
{
    let result = SearchResult::from_slots(words);
    proof {
        lemma_joined_separators(stored_matches(words@));
    }
    result.render()
}

/// The stored matches are the slots after the first, as many as reported but
/// never past the last slot.
pub proof fn lemma_stored_matches(words: Seq<u32>)
    requires
        words.len() == SLOT_WORDS,
    ensures
        stored_matches(words).len() == stored_count(words),
        stored_count(words) <= MATCH_CAPACITY,
        forall|i: int|
            0 <= i < stored_count(words) ==> #[trigger] stored_matches(words)[i] == words[i + 1],
        reports_overflow(words) ==> stored_matches(words) == words.subrange(1, SLOT_WORDS as int),
{
}

/// The text has as many comma-separated fields as there are stored matches:
/// none at all for a count of zero, and otherwise one comma less than
/// matches.
pub proof fn lemma_decoded_fields(words: Seq<u32>)
    requires
        words.len() == SLOT_WORDS,
    ensures
        words[0] == 0 ==> joined(stored_matches(words)) == Seq::<char>::empty(),
        words[0] > 0 ==> occurrences(joined(stored_matches(words)), separator()) + 1
            == stored_count(words),
{
    lemma_joined_separators(stored_matches(words));
}

} // verus!
