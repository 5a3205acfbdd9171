//! The session history handed to the long-term analytics store: one entry
//! per finished compression session.  Reading and writing the store is the
//! shell's business; the entries and their bookkeeping live here.

use vstd::prelude::*;

use crate::orchestrator::sat_sub;

verus! {

/// One finished session: when it ran, how many bytes went in and came
/// out, and the savings.
pub struct HistoryEntry {
    pub timestamp: String,
    pub original_size: u64,
    pub compressed_size: u64,
    pub savings: u64,
}

/// The whole recorded history, oldest first.
pub struct AnalyticsHistory {
    pub entries: Vec<HistoryEntry>,
}

impl AnalyticsHistory {
    /// An empty history.
    pub fn new() -> (h: AnalyticsHistory)
        ensures
            h.entries@ =~= Seq::<HistoryEntry>::empty(),
    {
        AnalyticsHistory { entries: Vec::new() }
    }

    /// Record one finished session; the savings are the original size less
    /// the compressed size, never below zero.
    pub fn add_entry(&mut self, timestamp: String, original: u64, compressed: u64)
        ensures
            final(self).entries@ == old(self).entries@.push(
                HistoryEntry {
                    timestamp,
                    original_size: original,
                    compressed_size: compressed,
                    savings: sat_sub(original, compressed),
                },
            ),
    {
        let savings = original.saturating_sub(compressed);
        let entry = HistoryEntry {
            timestamp,
            original_size: original,
            compressed_size: compressed,
            savings,
        };
        self.entries.push(entry);
    }

    /// The sum of all recorded savings, clamped to `u64`.
    pub fn all_time_savings(&self) -> (r: u64)
        ensures
            r as int == crate::fsmodel::sat_u64(sum_savings(self.entries@)),
    {
        let mut acc: u64 = 0;
        let mut i: usize = 0;
        while i < self.entries.len()
            invariant
                0 <= i <= self.entries@.len(),
                acc as int == crate::fsmodel::sat_u64(
                    sum_savings(self.entries@.subrange(0, i as int)),
                ),
            decreases self.entries@.len() - i,
        {
            proof {
                let pre = self.entries@.subrange(0, i as int);
                let post = self.entries@.subrange(0, i + 1);
                assert(post.drop_last() =~= pre);
                assert(post.last() == self.entries@[i as int]);
                lemma_sum_savings_nonneg(pre);
            }
            acc = acc.saturating_add(self.entries[i].savings);
            i = i + 1;
        }
        assert(self.entries@.subrange(0, self.entries@.len() as int) =~= self.entries@);
        acc
    }
}

/// The sum of the savings over a sequence of entries.
pub open spec fn sum_savings(entries: Seq<HistoryEntry>) -> int
    decreases entries.len(),
{
    if entries.len() == 0 {
        0
    } else {
        sum_savings(entries.drop_last()) + entries.last().savings
    }
}

proof fn lemma_sum_savings_nonneg(entries: Seq<HistoryEntry>)
    ensures
        sum_savings(entries) >= 0,
    decreases entries.len(),
{
    if entries.len() > 0 {
        lemma_sum_savings_nonneg(entries.drop_last());
    }
}

} // verus!
