//! The streaming size guard: a running byte total checked against a ceiling,
//! chunk by chunk, so no payload is ever buffered whole.

use vstd::prelude::*;
use crate::error::UploadError;

verus! {

/// The default byte ceiling for one upload: 10 MiB.
pub const DEFAULT_SIZE_CEILING: u64 = 10 * 1024 * 1024;

/// Accumulates the byte total of a chunk stream and refuses the chunk that
/// would push the total over the configured ceiling. The overshooting chunk
/// is rejected before it is counted, so the total never exceeds the ceiling.
pub struct StreamingSizeGuard {
    total: u64,
    ceiling: u64,
}

impl StreamingSizeGuard {
    /// The bytes accepted so far.
    pub closed spec fn total(self) -> u64 {
        self.total
    }

    /// The configured ceiling.
    pub closed spec fn ceiling(self) -> u64 {
        self.ceiling
    }

    /// The guard's invariant: the accepted total never exceeds the ceiling.
    pub open spec fn wf(self) -> bool {
        self.total() <= self.ceiling()
    }

    /// Reads the bytes accepted so far.
    pub fn current_total(&self) -> (r: u64)
        ensures
            r == self.total(),
    {
        self.total
    }

    /// Makes a guard seeded at zero for the given ceiling.
    pub fn new(ceiling: u64) -> (g: Self)
        ensures
            g.total() == 0,
            g.ceiling() == ceiling,
            g.wf(),
    {
        StreamingSizeGuard { total: 0, ceiling }
    }

    /// Counts one chunk of `len` bytes. Succeeds, and adds the chunk to the
    /// running total, exactly when the updated total stays within the
    /// ceiling; otherwise rejects the chunk as too large and leaves the total
    /// unchanged, and the caller must stop reading the stream.
    pub fn accept(&mut self, len: u64) -> (r: Result<(), UploadError>)
        requires
            old(self).wf(),
        ensures
            final(self).ceiling() == old(self).ceiling(),
            final(self).wf(),
            if old(self).total() + len <= old(self).ceiling() {
                r is Ok && final(self).total() == old(self).total() + len
            } else {
                r == Err::<(), UploadError>(UploadError::PayloadTooLarge)
                    && final(self).total() == old(self).total()
            },
    {
        if len <= self.ceiling - self.total {
            self.total = self.total + len;
            Ok(())
        } else {
            Err(UploadError::PayloadTooLarge)
        }
    }
}

} // verus!
