//! Writing one frame: the same sample into every channel slot.

use crate::sample::UnitSample;
use vstd::prelude::*;

verus! {

/// Where the frame that starts at `start` ends: `channel_count` slots on, or
/// at the end of the buffer where fewer are left.
pub open spec fn frame_end(start: int, channel_count: int, len: int) -> int {
    if len - start < channel_count {
        len
    } else {
        start + channel_count
    }
}

/// Writes `value` into every slot of the frame that starts at `start`, and
/// returns where the frame ends. No other slot changes.
pub fn write_frame<S: Copy>(buffer: &mut [S], start: usize, channel_count: usize, value: S) -> (end:
    usize)
    requires
        start <= old(buffer)@.len(),
    ensures
        end == frame_end(start as int, channel_count as int, old(buffer)@.len() as int),
        start <= end <= old(buffer)@.len(),
        final(buffer)@.len() == old(buffer)@.len(),
        forall|i: int| start <= i < end ==> final(buffer)@[i] == value,
        forall|i: int|
            0 <= i < old(buffer)@.len() && !(start <= i < end) ==> final(buffer)@[i] == old(
                buffer,
            )@[i],
{
    let len: usize = buffer.len();
    let end: usize = if len - start < channel_count {
        len
    } else {
        start + channel_count
    };
    let mut slot: usize = start;
    while slot < end
        invariant
            start <= slot <= end <= len,
            buffer@.len() == len,
            len == old(buffer)@.len(),
            forall|i: int| start <= i < slot ==> buffer@[i] == value,
            forall|i: int| 0 <= i < len && !(start <= i < slot) ==> buffer@[i] == old(buffer)@[i],
        decreases end - slot,
    {
        buffer[slot] = value;
        slot += 1;
    }
    end
}

/// Writes one frame: converts `unit_sample` once with `encode` and puts the
/// result into every slot of the frame that starts at `start`. Returns where
/// the frame ends. No other slot changes.
pub fn write<S: Copy, E: Fn(UnitSample) -> S>(
    buffer: &mut [S],
    start: usize,
    channel_count: usize,
    unit_sample: UnitSample,
    encode: &E,
) -> (end: usize)
    requires
        start <= old(buffer)@.len(),
        call_requires(*encode, (unit_sample,)),
    ensures
        end == frame_end(start as int, channel_count as int, old(buffer)@.len() as int),
        start <= end <= old(buffer)@.len(),
        final(buffer)@.len() == old(buffer)@.len(),
        forall|i: int|
            start <= i < end ==> call_ensures(*encode, (unit_sample,), #[trigger] final(buffer)@[i]),
        forall|i: int, j: int|
            start <= i < end && start <= j < end ==> #[trigger] final(buffer)@[i]
                == #[trigger] final(buffer)@[j],
        forall|i: int|
            0 <= i < old(buffer)@.len() && !(start <= i < end) ==> final(buffer)@[i] == old(
                buffer,
            )@[i],
{
    let encoded = encode(unit_sample);
    write_frame(buffer, start, channel_count, encoded)
}

} // verus!
