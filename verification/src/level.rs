//! From a buffer of quantized samples to one loudness level.
//!
//! The peak of a buffer and the rules at the two ends of the scale are
//! decided here. The logarithm in between is floating-point arithmetic;
//! the caller computes it and hands it in, already in thousandths of a
//! decibel.

use vstd::prelude::*;

verus! {

/// The silence floor, in thousandths of a decibel relative to full scale.
pub const MIN_DB: i32 = -96_000;

/// The largest magnitude a quantized sample can have without clipping.
pub const FULL_SCALE: u16 = 32_767;

/// The absolute value of a quantized sample.
pub open spec fn magnitude(sample: i16) -> int {
    if sample < 0 {
        -(sample as int)
    } else {
        sample as int
    }
}

/// The largest magnitude in a buffer, and 0 for an empty one.
pub open spec fn peak_of(samples: Seq<i16>) -> int
    decreases samples.len(),
{
    if samples.len() == 0 {
        0
    } else {
        let rest = peak_of(samples.drop_last());
        let newest = magnitude(samples.last());
        if newest > rest {
            newest
        } else {
            rest
        }
    }
}

/// The peak is 0 for an empty buffer; otherwise it is the magnitude of one
/// of the samples, and no sample has a larger one.
pub proof fn lemma_peak_is_largest_magnitude(samples: Seq<i16>)
    ensures
        0 <= peak_of(samples) <= 32_768,
        forall|i: int| 0 <= i < samples.len() ==> magnitude(#[trigger] samples[i]) <= peak_of(samples),
        samples.len() == 0 ==> peak_of(samples) == 0,
        samples.len() > 0 ==> exists|i: int|
            0 <= i < samples.len() && magnitude(#[trigger] samples[i]) == peak_of(samples),
    decreases samples.len(),
{
    if samples.len() > 0 {
        let front = samples.drop_last();
        lemma_peak_is_largest_magnitude(front);
        assert(forall|i: int| 0 <= i < front.len() ==> front[i] == samples[i]);
        if magnitude(samples.last()) > peak_of(front) || front.len() == 0 {
            assert(magnitude(samples[samples.len() - 1]) == peak_of(samples));
        } else {
            let i = choose|i: int| 0 <= i < front.len() && magnitude(#[trigger] front[i]) == peak_of(front);
            assert(magnitude(samples[i]) == peak_of(samples));
        }
    }
}

/// Scans a buffer of quantized samples for its peak magnitude.
pub fn peak_amplitude(samples: &[i16]) -> (peak: u16)
    ensures
        peak == peak_of(samples@),
{
    let mut peak: u16 = 0;
    let mut i: usize = 0;
    while i < samples.len()
        invariant
            i <= samples.len(),
            peak == peak_of(samples@.take(i as int)),
        decreases samples.len() - i,
    {
        let sample: i16 = samples[i];
        let size: u16 = if sample < 0 {
            (-(sample as i32)) as u16
        } else {
            sample as u16
        };
        proof {
            let seen = samples@.take(i as int + 1);
            assert(seen.drop_last() == samples@.take(i as int));
            assert(seen.last() == sample);
        }
        if size > peak {
            peak = size;
        }
        i += 1;
    }
    proof {
        assert(samples@.take(i as int) == samples@);
    }
    peak
}

/// A level brought into the range from the silence floor to full scale.
pub open spec fn clamped(raw: int) -> int {
    if raw < MIN_DB {
        MIN_DB as int
    } else if raw > 0 {
        0
    } else {
        raw
    }
}

/// The level of a buffer whose peak is `peak`, where `raw` is
/// 20 * log10(peak / full scale) in thousandths of a decibel. A silent
/// buffer is at the floor and a peak at or beyond full scale is at 0,
/// whatever `raw` says; in between, `raw` is clamped.
pub open spec fn level_of(peak: int, raw: int) -> int {
    if peak <= 0 {
        MIN_DB as int
    } else if peak >= FULL_SCALE {
        0
    } else {
        clamped(raw)
    }
}

/// The level of a buffer from its peak and from the logarithm `raw` that
/// the caller computed for that peak (see [`level_of`]).
pub fn level(peak: u16, raw: i64) -> (db: i32)
    ensures
        db == level_of(peak as int, raw as int),
        MIN_DB <= db <= 0,
{
    if peak == 0 {
        MIN_DB
    } else if peak >= FULL_SCALE {
        0
    } else if raw < MIN_DB as i64 {
        MIN_DB
    } else if raw > 0 {
        0
    } else {
        raw as i32
    }
}

/// Every level lies between the silence floor and full scale.
pub proof fn lemma_level_in_range(samples: Seq<i16>, raw: int)
    ensures
        MIN_DB <= level_of(peak_of(samples), raw) <= 0,
{
}

/// An empty buffer is at the silence floor, and so is a buffer of zeros.
pub proof fn lemma_silence_is_floor(samples: Seq<i16>, raw: int)
    requires
        forall|i: int| 0 <= i < samples.len() ==> samples[i] == 0,
    ensures
        level_of(peak_of(samples), raw) == MIN_DB,
{
    lemma_peak_is_largest_magnitude(samples);
    if samples.len() > 0 {
        let i = choose|i: int|
            0 <= i < samples.len() && magnitude(#[trigger] samples[i]) == peak_of(samples);
        assert(samples[i] == 0);
    }
}

/// A buffer that holds a sample at either end of the quantized range is
/// at full scale: its level is exactly 0.
pub proof fn lemma_saturated_is_full_scale(samples: Seq<i16>, at: int, raw: int)
    requires
        0 <= at < samples.len(),
        samples[at] == i16::MAX || samples[at] == i16::MIN,
    ensures
        level_of(peak_of(samples), raw) == 0,
{
    lemma_peak_is_largest_magnitude(samples);
    assert(magnitude(samples[at]) >= FULL_SCALE);
}

/// A higher peak never gives a lower level, as long as the logarithm
/// handed in for the higher peak is not the lower one.
pub proof fn lemma_level_monotonic(low_peak: int, low_raw: int, high_peak: int, high_raw: int)
    requires
        low_peak <= high_peak,
        low_raw <= high_raw,
    ensures
        level_of(low_peak, low_raw) <= level_of(high_peak, high_raw),
{
}

/// Raising the magnitude of samples never lowers the peak of the buffer.
pub proof fn lemma_peak_monotonic(quiet: Seq<i16>, loud: Seq<i16>)
    requires
        quiet.len() == loud.len(),
        forall|i: int| 0 <= i < quiet.len() ==> magnitude(quiet[i]) <= magnitude(loud[i]),
    ensures
        peak_of(quiet) <= peak_of(loud),
{
    lemma_peak_is_largest_magnitude(quiet);
    lemma_peak_is_largest_magnitude(loud);
    if quiet.len() > 0 {
        let i = choose|i: int| 0 <= i < quiet.len() && magnitude(#[trigger] quiet[i]) == peak_of(quiet);
        assert(magnitude(loud[i]) <= peak_of(loud));
    }
}

} // verus!
