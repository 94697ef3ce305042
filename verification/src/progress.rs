//! How far a scan has come: files examined out of files to examine.

use vstd::prelude::*;

verus! {

/// A counter of files examined against a total that is fixed when the scan
/// begins. It counts every file that was looked at, whatever came of it.
#[derive(Clone, Copy, Debug, PartialEq, Eq, Structural)]
pub struct ScanProgress {
    /// Files examined so far.
    pub current: usize,
    /// Files that the scan was started with.
    pub total: usize,
}

impl ScanProgress {
    /// No more files are examined than there are.
    pub open spec fn wf(&self) -> bool {
        self.current <= self.total
    }

    /// The progress of a scan of `total` files that has not begun.
    pub fn new(total: usize) -> (progress: ScanProgress)
        ensures
            progress.current == 0,
            progress.total == total,
            progress.wf(),
    {
        ScanProgress { current: 0, total }
    }

    /// Whether every file has been examined.
    pub fn is_complete(&self) -> (complete: bool)
        ensures
            complete == (self.current >= self.total),
    {
        self.current >= self.total
    }

    /// How many files are still to be examined.
    pub fn remaining(&self) -> (left: usize)
        ensures
            left == if self.current <= self.total {
                self.total - self.current
            } else {
                0
            },
    {
        if self.current <= self.total {
            self.total - self.current
        } else {
            0
        }
    }

    /// Counts one more file as examined. At the total the counter stays.
    pub fn advance(&mut self)
        ensures
            final(self).total == old(self).total,
            final(self).current == if old(self).current < old(self).total {
                old(self).current + 1
            } else {
                old(self).current as int
            },
            old(self).wf() ==> final(self).wf(),
    {
        if self.current < self.total {
            self.current = self.current + 1;
        }
    }
}

} // verus!
