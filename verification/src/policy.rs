//! The accept/reject policy for compression results, the deterministic
//! quality-to-native-parameter mappings, and quality validation.

use vstd::prelude::*;

verus! {

/// Whether a compressed result replaces the original in the output archive.
#[derive(Clone, Copy, Debug, PartialEq, Eq)]
pub enum Decision {
    Accept,
    Reject,
}

pub open spec fn spec_accepts(original_size: u64, compressed_size: u64, force: bool) -> bool {
    compressed_size < original_size || force
}

/// Accept a compressed result iff it is strictly smaller than the original,
/// unless the operator forces acceptance. The rule is the same for every
/// media kind.
pub fn decide(original_size: u64, compressed_size: u64, force_accept: bool) -> (d: Decision)
    ensures
        d is Accept <==> spec_accepts(original_size, compressed_size, force_accept),
{
    if compressed_size < original_size || force_accept {
        Decision::Accept
    } else {
        Decision::Reject
    }
}

pub open spec fn spec_clamp_quality(q: u8) -> u8 {
    if q < 1 {
        1
    } else if q > 100 {
        100
    } else {
        q
    }
}

/// Quality 1 maps to CRF 51 (smallest output), quality 100 to CRF 18
/// (highest fidelity), linearly in between; out-of-range qualities are
/// clamped first.
pub open spec fn spec_quality_to_crf(q: u8) -> u8 {
    (51 - ((spec_clamp_quality(q) - 1) * 33) / 99) as u8
}

/// Map a quality in 1..=100 to the external video encoder's CRF scale.
pub fn quality_to_crf(quality: u8) -> (crf: u8)
    ensures
        crf == spec_quality_to_crf(quality),
        18 <= crf <= 51,
{
    let q: u16 = if quality < 1 {
        1
    } else if quality > 100 {
        100
    } else {
        quality as u16
    };
    let step: u16 = ((q - 1) * 33) / 99;
    (51 - step) as u8
}

/// The bitrate table of the audio encoder, in kilobits per second.
/// The mapping is monotonic in the (clamped) quality.
pub open spec fn spec_quality_to_mp3_bitrate(q: u8) -> u32 {
    let c = spec_clamp_quality(q);
    if c <= 15 {
        64u32
    } else if c <= 25 {
        80u32
    } else if c <= 35 {
        96u32
    } else if c <= 45 {
        128u32
    } else if c <= 55 {
        160u32
    } else if c <= 65 {
        192u32
    } else if c <= 75 {
        224u32
    } else if c <= 95 {
        256u32
    } else {
        320u32
    }
}

/// Map a quality in 1..=100 to the audio encoder's bitrate, in kbps.
pub fn quality_to_mp3_bitrate(quality: u8) -> (kbps: u32)
    ensures
        kbps == spec_quality_to_mp3_bitrate(quality),
{
    let c: u8 = if quality < 1 {
        1
    } else if quality > 100 {
        100
    } else {
        quality
    };
    if c <= 15 {
        64
    } else if c <= 25 {
        80
    } else if c <= 35 {
        96
    } else if c <= 45 {
        128
    } else if c <= 55 {
        160
    } else if c <= 65 {
        192
    } else if c <= 75 {
        224
    } else if c <= 95 {
        256
    } else {
        320
    }
}

/// A higher quality never maps to a higher CRF: the mapping is monotone,
/// with lower CRF meaning higher fidelity.
pub proof fn lemma_crf_monotone(q1: u8, q2: u8)
    requires
        q1 <= q2,
    ensures
        spec_quality_to_crf(q1) >= spec_quality_to_crf(q2),
{
    let c1 = spec_clamp_quality(q1) as int;
    let c2 = spec_clamp_quality(q2) as int;
    assert(c1 <= c2);
    vstd::arithmetic::div_mod::lemma_div_is_ordered((c1 - 1) * 33, (c2 - 1) * 33, 99);
}

/// A higher quality never maps to a lower audio bitrate.
pub proof fn lemma_mp3_bitrate_monotone(q1: u8, q2: u8)
    requires
        q1 <= q2,
    ensures
        spec_quality_to_mp3_bitrate(q1) <= spec_quality_to_mp3_bitrate(q2),
{
}

pub open spec fn spec_quality_in_range(q: u8) -> bool {
    1 <= q <= 100
}

/// A quality parameter is valid iff it lies in 1..=100.
pub fn quality_in_range(quality: u8) -> (ok: bool)
    ensures
        ok == spec_quality_in_range(quality),
{
    1 <= quality && quality <= 100
}

} // verus!
