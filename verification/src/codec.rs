//! The parameters of an audio stream, as far as joining chapters depends on them.

use vstd::prelude::*;

verus! {

/// What a source reader detects of a chapter's audio stream. The numbers are
/// the media library's own identifiers; they are compared here, never interpreted.
#[derive(Clone, Copy, Debug, PartialEq, Eq, Structural)]
pub struct CodecParams {
    /// Identity of the codec.
    pub codec: u32,
    /// Sample format.
    pub sample_format: u32,
    /// Samples per second.
    pub sample_rate: u32,
    /// Channel layout.
    pub channel_layout: u64,
}

impl CodecParams {
    /// Packets of a stream with parameters `other` can be written, unchanged,
    /// to a stream declared with `self`: nothing is transcoded, so every
    /// parameter has to agree.
    pub open spec fn spec_compatible(self, other: CodecParams) -> bool {
        &&& self.codec == other.codec
        &&& self.sample_format == other.sample_format
        &&& self.sample_rate == other.sample_rate
        &&& self.channel_layout == other.channel_layout
    }

    /// Whether packets of a stream with parameters `other` fit a stream
    /// declared with `self`.
    pub fn compatible(&self, other: &CodecParams) -> (fits: bool)
        ensures
            fits == self.spec_compatible(*other),
    {
        self.codec == other.codec && self.sample_format == other.sample_format
            && self.sample_rate == other.sample_rate && self.channel_layout
            == other.channel_layout
    }
}

/// Compatibility is an equivalence: chapters that each fit the first one fit
/// one another, so one declared stream serves the whole book.
pub proof fn lemma_compatible_is_equivalence(a: CodecParams, b: CodecParams, c: CodecParams)
    ensures
        a.spec_compatible(a),
        a.spec_compatible(b) ==> b.spec_compatible(a),
        a.spec_compatible(b) && b.spec_compatible(c) ==> a.spec_compatible(c),
        a.spec_compatible(b) <==> a == b,
{
}

} // verus!
