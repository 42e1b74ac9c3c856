//! The spectrum extractor: per-source capture state and the exact shape of
//! the data it produces.
//!
//! One extractor owns one live capture stream for one source index.  The
//! stream itself, the blocking device read and the Fourier transform of the
//! samples are the surrounding application's (device I/O and floating-point
//! work); this module holds the extractor's record — which source, how many
//! channels, at what rate — and the value-level steps of frame production:
//! de-interleaving a raw sample block into per-channel buffers, and
//! normalizing magnitudes against a per-bin reference-maximum table.

use vstd::prelude::*;

verus! {

use crate::audio_devices::PaSourceInfo;
use crate::data_helpers::FIXED_ONE;

/// Number of samples per channel in one analysis window (a power of two).
pub const FRAMES: usize = 256;

/// One spectrum frame: per channel, one magnitude array of the analysis
/// window size, in the fixed-point representation of `data_helpers`.
pub type AudioFrame = Vec<Vec<u64>>;

/// The record of one live spectrum extractor: the source it captures and the
/// stream parameters taken from that source's descriptor.  At most one
/// extractor exists per source index at any time; the multiplexer enforces
/// that by keeping at most one per table entry.
#[derive(Clone, Copy, PartialEq, Eq, Structural)]
pub struct AudioProcessor {
    /// Index of the captured source in the device catalog.
    pub source_index: usize,
    /// Number of interleaved channels the stream delivers.
    pub channels: usize,
    /// Samples per second and channel.
    pub rate: u32,
}

impl AudioProcessor {
    /// The extractor record for source `source_index`, built from the
    /// catalog's descriptor table: `Some` exactly when a descriptor is
    /// present at that index.
    pub fn new(sources: &Vec<Option<PaSourceInfo>>, source_index: usize) -> (r: Option<
        AudioProcessor,
    >)
        requires
            source_index < sources@.len(),
        ensures
            ({
                match sources@[source_index as int] {
                    Some(src) => r == Some(
                        (AudioProcessor {
                            source_index,
                            channels: src.channels as usize,
                            rate: src.rate,
                        }),
                    ),
                    None => r is None,
                }
            }),
    {
        match &sources[source_index] {
            Some(src) => Some(
                AudioProcessor { source_index, channels: src.channels as usize, rate: src.rate },
            ),
            None => None,
        }
    }

    /// Number of channels of the captured stream.
    pub fn channels(&self) -> (r: usize)
        ensures
            r == self.channels,
    {
        self.channels
    }

    /// Index of the captured source.
    pub fn source_index(&self) -> (r: usize)
        ensures
            r == self.source_index,
    {
        self.source_index
    }

    /// Split one interleaved sample block into per-channel buffers: channel
    /// `c` receives the samples at positions `f * channels + c` of the
    /// block, in frame order.
    pub fn deinterleave(&self, samples: &Vec<i16>) -> (r: Vec<Vec<i16>>)
        requires
            1 <= self.channels,
            samples@.len() == FRAMES * self.channels,
        ensures
            r@.len() == self.channels as int,
            forall|c: int| 0 <= c < self.channels as int ==> r@[c]@.len() == FRAMES as int,
            forall|c: int, f: int|
                0 <= c < self.channels as int && 0 <= f < FRAMES as int ==> r@[c]@[f] == samples@[f
                    * (self.channels as int) + c],
    {
        let channels = self.channels;
        let total: usize = samples.len();
        let mut out: Vec<Vec<i16>> = Vec::new();
        let mut c: usize = 0;
        while c < channels
            invariant
                0 <= c <= channels,
                samples@.len() == FRAMES * channels,
                total == samples@.len(),
                out@.len() == c as int,
                forall|k: int| 0 <= k < c as int ==> out@[k]@.len() == FRAMES as int,
                forall|k: int, f: int|
                    0 <= k < c as int && 0 <= f < FRAMES as int ==> out@[k]@[f] == samples@[f * (
                    channels as int) + k],
            decreases channels - c,
        {
            let mut buf: Vec<i16> = Vec::new();
            let mut f: usize = 0;
            while f < FRAMES
                invariant
                    0 <= f <= FRAMES,
                    0 <= c < channels,
                    samples@.len() == FRAMES * channels,
                    total == samples@.len(),
                    buf@.len() == f as int,
                    forall|k: int|
                        0 <= k < f as int ==> buf@[k] == samples@[k * (channels as int) + c],
                decreases FRAMES - f,
            {
                proof {
                    lemma_interleaved_index_in_range(
                        f as int,
                        c as int,
                        channels as int,
                        FRAMES as int,
                    );
                    assert(f * (channels as int) + c < total);
                }
                buf.push(samples[f * channels + c]);
                f += 1;
            }
            out.push(buf);
            c += 1;
        }
        out
    }
}

proof fn lemma_interleaved_index_in_range(f: int, c: int, channels: int, frames: int)
    requires
        0 <= f < frames,
        0 <= c < channels,
    ensures
        0 <= f * channels + c < frames * channels,
{
    assert(f * channels + c < frames * channels) by (nonlinear_arith)
        requires
            0 <= f < frames,
            0 <= c < channels,
    ;
    assert(0 <= f * channels) by (nonlinear_arith)
        requires
            0 <= f,
            0 <= channels,
    ;
}

/// The magnitude `v` compressed against the reference maximum `r`: the
/// fixed-point quotient `v / r`, clamped so a value above the reference
/// reads exactly 1.
pub open spec fn normalized(v: u64, r: u64) -> int {
    let q = v * FIXED_ONE / r as int;
    if q > FIXED_ONE as int {
        FIXED_ONE as int
    } else {
        q
    }
}

/// Divide each magnitude by its per-bin reference maximum, clamping values
/// above the reference to exactly 1.  The reference table is keyed by bin
/// index alone, so applying this to each channel of a frame treats every
/// channel identically.
pub fn scale_by_reference_max(items: &mut Vec<u64>, reference: &Vec<u64>)
    requires
        old(items)@.len() == reference@.len(),
        forall|i: int| 0 <= i < reference@.len() ==> reference@[i] > 0,
    ensures
        final(items)@.len() == old(items)@.len(),
        forall|i: int|
            0 <= i < old(items)@.len() ==> final(items)@[i] == normalized(
                old(items)@[i],
                reference@[i],
            ),
{
    let ghost orig = items@;
    let len: usize = items.len();
    let mut j: usize = 0;
    while j < len
        invariant
            0 <= j <= len,
            items@.len() == len as int,
            orig.len() == len as int,
            reference@.len() == len as int,
            forall|i: int| 0 <= i < len as int ==> reference@[i] > 0,
            forall|k: int| j as int <= k < len as int ==> items@[k] == orig[k],
            forall|k: int| 0 <= k < j as int ==> items@[k] == normalized(orig[k], reference@[k]),
        decreases len - j,
    {
        let v: u64 = items[j];
        let r: u64 = reference[j];
        let q: u128 = ((v as u128) * (FIXED_ONE as u128)) / (r as u128);
        if q > FIXED_ONE as u128 {
            items.set(j, FIXED_ONE);
        } else {
            items.set(j, q as u64);
        }
        j += 1;
    }
}

/// Normalize every channel of a frame against the same per-bin reference
/// table (see `scale_by_reference_max`).
pub fn normalize_frame(frame: &mut Vec<Vec<u64>>, reference: &Vec<u64>)
    requires
        forall|c: int| 0 <= c < old(frame)@.len() ==> old(frame)@[c]@.len() == reference@.len(),
        forall|i: int| 0 <= i < reference@.len() ==> reference@[i] > 0,
    ensures
        final(frame)@.len() == old(frame)@.len(),
        forall|c: int| 0 <= c < old(frame)@.len() ==> final(frame)@[c]@.len() == reference@.len(),
        forall|c: int, i: int|
            0 <= c < old(frame)@.len() && 0 <= i < reference@.len() ==> final(frame)@[c]@[i]
                == normalized(old(frame)@[c]@[i], reference@[i]),
{
    let ghost orig = frame@;
    let channels: usize = frame.len();
    let mut c: usize = 0;
    while c < channels
        invariant
            0 <= c <= channels,
            frame@.len() == channels as int,
            orig.len() == channels as int,
            forall|k: int| 0 <= k < channels as int ==> orig[k]@.len() == reference@.len(),
            forall|i: int| 0 <= i < reference@.len() ==> reference@[i] > 0,
            forall|k: int| c as int <= k < channels as int ==> frame@[k] == orig[k],
            forall|k: int| 0 <= k < c as int ==> frame@[k]@.len() == reference@.len(),
            forall|k: int, i: int|
                0 <= k < c as int && 0 <= i < reference@.len() ==> frame@[k]@[i] == normalized(
                    orig[k]@[i],
                    reference@[i],
                ),
        decreases channels - c,
    {
        let ghost before = frame@;
        assert(before[c as int] == orig[c as int]);
        let ch: &mut Vec<u64> = &mut frame[c];
        scale_by_reference_max(ch, reference);
        proof {
            assert(frame@ =~= before.update(c as int, frame@[c as int]));
        }
        c += 1;
    }
}

} // verus!
