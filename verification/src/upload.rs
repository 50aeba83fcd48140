//! Upload progress accounting.
//!
//! Each upload call carries a progress counter: the latest "bytes
//! written" value reported by the provider.  The counter is a
//! high-water mark, so the values any subscriber observes are
//! monotonically non-decreasing, and with latest-wins broadcast
//! semantics every subscriber eventually sees the final value.

use vstd::prelude::*;

verus! {

/// The monotonic "bytes written" counter of one upload.
pub struct UploadProgress {
    written: u64,
}

impl UploadProgress {
    /// The bytes written so far, mathematically.
    pub closed spec fn spec_written(self) -> u64 {
        self.written
    }

    /// A fresh counter at zero.
    pub fn new() -> (r: UploadProgress)
        ensures
            r.spec_written() == 0,
    {
        UploadProgress { written: 0 }
    }

    /// Reports the latest "bytes written" value.  The counter is a
    /// high-water mark: a report below the current value is ignored,
    /// so observations never decrease.
    pub fn update(&mut self, written: u64)
        ensures
            final(self).spec_written() == if written >= old(self).spec_written() {
                written
            } else {
                old(self).spec_written()
            },
            final(self).spec_written() >= old(self).spec_written(),
    {
        if written >= self.written {
            self.written = written;
        }
    }

    /// The current counter value: what a subscriber observing now
    /// would see.
    pub fn written(&self) -> (r: u64)
        ensures
            r == self.spec_written(),
    {
        self.written
    }
}

/// Law: upload progress is monotone.  Along any history of counter
/// values in which each value follows from the previous one by an
/// update (so adjacent values never decrease), every later
/// observation is at least every earlier one.
pub proof fn lemma_progress_monotone(h: Seq<u64>, i: int, j: int)
    requires
        forall|k: int| 0 <= k < h.len() - 1 ==> #[trigger] h[k] <= h[k + 1],
        0 <= i <= j < h.len(),
    ensures
        h[i] <= h[j],
    decreases j - i,
{
    if i < j {
        lemma_progress_monotone(h, i + 1, j);
    }
}

} // verus!
