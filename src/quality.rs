//! The quality search: encode at descending quality levels until the result
//! fits the size budget, with one last encode at the floor otherwise.
use vstd::prelude::*;

verus! {

/// Byte ceiling that the search tries to meet (1 MiB).
pub const SIZE_BUDGET: usize = 1048576;

/// First quality level tried.
pub const START_QUALITY: u32 = 95;

/// Decrement between two searched levels.
pub const QUALITY_STEP: u32 = 10;

/// Lowest level of the search proper.
pub const LOWEST_SEARCH_QUALITY: u32 = 15;

/// Level of the fallback encode, kept whatever its size.
pub const FLOOR_QUALITY: u32 = 10;

/// What to do after one encode.
#[derive(PartialEq, Eq, Structural, Debug, Clone, Copy)]
pub enum Step {
    /// Keep the encoding just made.
    Accept,
    /// Encode again at this quality.
    Retry(u32),
}

/// The levels of the search proper: 95, 85, ..., 15.
pub open spec fn is_search_quality(q: u32) -> bool {
    LOWEST_SEARCH_QUALITY <= q <= START_QUALITY && (START_QUALITY - q) as int % (QUALITY_STEP as int) == 0
}

/// A level at which the search may encode.
pub open spec fn is_encode_quality(q: u32) -> bool {
    is_search_quality(q) || q == FLOOR_QUALITY
}

/// The decision after encoding at quality `q` gave `len` bytes.
pub open spec fn step_after(q: u32, len: nat) -> Step {
    if q == FLOOR_QUALITY || len < SIZE_BUDGET {
        Step::Accept
    } else if q > LOWEST_SEARCH_QUALITY {
        Step::Retry((q - QUALITY_STEP) as u32)
    } else {
        Step::Retry(FLOOR_QUALITY)
    }
}

/// The quality of the first encode.
pub fn first_quality() -> (q: u32)
    ensures
        q == START_QUALITY,
        is_encode_quality(q),
{
    START_QUALITY
}

/// Decides, after an encode at `quality` gave `encoded_len` bytes, whether
/// to keep it or at which quality to encode next.
pub fn next_step(quality: u32, encoded_len: usize) -> (r: Step)
    requires
        is_encode_quality(quality),
    ensures
        r == step_after(quality, encoded_len as nat),
        r matches Step::Retry(n) ==> is_encode_quality(n) && n < quality,
{
    if quality == FLOOR_QUALITY || encoded_len < SIZE_BUDGET {
        Step::Accept
    } else if quality > LOWEST_SEARCH_QUALITY {
        Step::Retry(quality - QUALITY_STEP)
    } else {
        Step::Retry(FLOOR_QUALITY)
    }
}

/// An encoding that the search keeps is under the size budget, or was made
/// at the floor quality.
pub proof fn lemma_accepted_fits_or_floor(q: u32, len: nat)
    requires
        is_encode_quality(q),
        step_after(q, len) == Step::Accept,
    ensures
        len < SIZE_BUDGET || q == FLOOR_QUALITY,
{
}

/// The floor is reached only when an encode at the lowest search level
/// missed the budget: an encode under the budget is always kept.
pub proof fn lemma_fitting_encode_kept(q: u32, len: nat)
    requires
        is_encode_quality(q),
        len < SIZE_BUDGET,
    ensures
        step_after(q, len) == Step::Accept,
{
}

} // verus!
