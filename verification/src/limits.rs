//! Request-scoped size limits for the multipart decoder.

use vstd::prelude::*;

verus! {

/// Configuration for one request: a bound on the whole decoded body and a
/// bound on the single size-limited `"file"` field. The file bound never
/// exceeds the total bound.
pub struct UploadLimits {
    pub max_total_bytes: u64,
    pub max_file_bytes: u64,
}

impl UploadLimits {
    /// The invariant every limits value used by the decoder satisfies.
    pub open spec fn wf(self) -> bool {
        self.max_file_bytes <= self.max_total_bytes
    }

    /// Builds a limits value; callers must not ask for a file bound above the
    /// total bound.
    pub fn new(max_total_bytes: u64, max_file_bytes: u64) -> (r: Self)
        requires
            max_file_bytes <= max_total_bytes,
        ensures
            r.wf(),
            r.max_total_bytes == max_total_bytes,
            r.max_file_bytes == max_file_bytes,
    {
        UploadLimits { max_total_bytes, max_file_bytes }
    }
}

} // verus!
