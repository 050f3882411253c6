//! What the audio device reports about the stream it opened.

use vstd::prelude::*;

verus! {

/// The numeric encoding of one sample in the output buffer.
#[derive(Clone, Copy, Debug, PartialEq, Eq, Structural)]
pub enum SampleEncoding {
    UnsignedInt16,
    SignedInt16,
    Float32,
}

/// The format negotiated for a stream. It does not change while the stream
/// lives.
#[derive(Clone, Copy, Debug, PartialEq, Eq, Structural)]
pub struct AudioFormatDescriptor {
    pub sample_rate_hz: u32,
    pub channel_count: u16,
    pub sample_encoding: SampleEncoding,
}

impl AudioFormatDescriptor {
    /// A format can be synthesised for when it has a sample rate and at least
    /// one channel.
    pub open spec fn well_formed(&self) -> bool {
        self.sample_rate_hz > 0 && self.channel_count > 0
    }

    /// Tells whether the format can be synthesised for.
    pub fn is_well_formed(&self) -> (ok: bool)
        ensures
            ok == self.well_formed(),
    {
        self.sample_rate_hz > 0 && self.channel_count > 0
    }
}

/// Names one output stream among those an audio runtime drives.
#[derive(Clone, Copy, Debug, PartialEq, Eq, Structural)]
pub struct StreamTag(pub u64);

} // verus!
