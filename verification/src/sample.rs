//! Where the frames of a sample lie in its buffer.
//!
//! A sample is kept as interleaved stereo: the left and the right value of a
//! frame follow each other. A voice has run out once the frame it asks for
//! lies past the last whole frame.

use vstd::prelude::*;

verus! {

/// The number of whole frames in a buffer of `len` values.
pub open spec fn spec_frame_count(len: usize) -> usize {
    len / 2
}

/// The number of whole frames in a buffer of `len` values.
#[verifier::when_used_as_spec(spec_frame_count)]
pub fn frame_count(len: usize) -> (frames: usize)
    ensures
        frames == spec_frame_count(len),
{
    len / 2
}

/// The places of the left and the right value of frame `frame` in a buffer of
/// `len` values, or nothing once the frame lies past the last whole one.
pub fn frame_slots(frame: usize, len: usize) -> (slots: Option<(usize, usize)>)
    ensures
        slots == if frame < spec_frame_count(len) {
            Some(((2 * frame) as usize, (2 * frame + 1) as usize))
        } else {
            None::<(usize, usize)>
        },
        slots matches Some((left, right)) ==> left < right && right < len,
{
    if frame < len / 2 {
        Some((2 * frame, 2 * frame + 1))
    } else {
        None
    }
}

} // verus!
