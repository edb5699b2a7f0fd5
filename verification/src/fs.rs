//! The staleness rule that decides when a dependency forces a rebuild.

use vstd::prelude::*;

verus! {

/// Whether a dependency is stale: true exactly when the output is
/// missing, or the input's modification time is strictly greater than
/// the output's. The caller supplies the modification times it read;
/// a missing output has none.
pub fn is_newer(src_modified: u64, dst_modified: Option<u64>) -> (r: bool)
    ensures
        r == (dst_modified is None || src_modified > dst_modified.unwrap()),
{
    match dst_modified {
        None => true,
        Some(d) => src_modified > d,
    }
}

} // verus!
