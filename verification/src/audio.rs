//! Rules on recorded takes and downloaded model weights.

use vstd::prelude::*;

verus! {

/// A recording shorter than a fiftieth of a second holds nothing worth saving.
pub fn recording_too_short(sample_count: usize, sample_rate: u32) -> (r: bool)
    ensures
        r == (sample_count < sample_rate / 50),
{
    sample_count < sample_rate as usize / 50
}

/// The downloaded separation weights count as installed only above 10 MB: a
/// smaller file is an interrupted download or an error page.
pub fn is_complete_model(size_bytes: u64) -> (r: bool)
    ensures
        r == (size_bytes > 10_000_000),
{
    size_bytes > 10_000_000
}

} // verus!
