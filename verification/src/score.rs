//! The session score: correct answers in the current batch, and cumulative
//! correct and total counts carried across replays of the same session.

use vstd::prelude::*;
use crate::grade::Grade;

verus! {

/// Two counters mutated once per graded answer plus the running total;
/// reset only at session start.
pub struct Score {
    pub batch_correct: u32,
    pub overall_correct: u32,
    pub overall_total: u32,
}

impl Score {
    /// A fresh session score: all counters at zero.
    pub fn new() -> (s: Score)
        ensures
            s.batch_correct == 0,
            s.overall_correct == 0,
            s.overall_total == 0,
    {
        Score { batch_correct: 0, overall_correct: 0, overall_total: 0 }
    }

    /// Records one graded answer: the batch counter advances exactly when the
    /// guess was correct.
    pub fn record(&mut self, g: Grade)
        requires
            old(self).batch_correct < u32::MAX,
        ensures
            final(self).batch_correct == old(self).batch_correct + (
            if g is Correct {
                1int
            } else {
                0int
            }),
            final(self).overall_correct == old(self).overall_correct,
            final(self).overall_total == old(self).overall_total,
    {
        match g {
            Grade::Correct => {
                self.batch_correct = self.batch_correct + 1;
            },
            _ => {
            },
        }
    }

    /// Folds a finished batch of `len` sentences into the overall counters
    /// and resets the batch counter for the next replay.
    pub fn finish_batch(&mut self, len: u32)
        requires
            old(self).overall_correct + old(self).batch_correct <= u32::MAX,
            old(self).overall_total + len <= u32::MAX,
        ensures
            final(self).overall_correct == old(self).overall_correct + old(self).batch_correct,
            final(self).overall_total == old(self).overall_total + len,
            final(self).batch_correct == 0,
    {
        self.overall_correct = self.overall_correct + self.batch_correct;
        self.overall_total = self.overall_total + len;
        self.batch_correct = 0;
    }

    /// Whether the overall count covers exactly one batch of `len`
    /// sentences, in which case the summary shows only the local score.
    pub fn only_one_batch(&self, len: u32) -> (b: bool)
        requires
            len > 0,
        ensures
            b == (self.overall_total / len == 1),
    {
        self.overall_total / len == 1
    }
}

} // verus!
