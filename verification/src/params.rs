//! The three user parameters and the snapshot of them that one block sees.

use vstd::prelude::*;
use crate::passband::Passband;

verus! {

/// Frequencies and sample rates are counted in millihertz.
pub const MILLIHERTZ_PER_HERTZ: u64 = 1000;

/// Highest cutoff frequency that either cutoff parameter can take: 20 kHz.
pub const MAX_CUTOFF: u64 = 20_000_000;

/// Low cutoff of a fresh parameter set: 300 Hz.
pub const DEFAULT_LOW_CUTOFF: u64 = 300_000;

/// High cutoff of a fresh parameter set: 3400 Hz.
pub const DEFAULT_HIGH_CUTOFF: u64 = 3_400_000;

/// Fewest bands a bank can be asked for.
pub const MIN_BANDS: usize = 1;

/// Most bands a bank can be asked for.
pub const MAX_BANDS: usize = 256;

/// Band count of a fresh parameter set.
pub const DEFAULT_BANDS: usize = 20;

/// A cutoff frequency brought into the parameter's range `[0, MAX_CUTOFF]`.
pub open spec fn clamped_cutoff(cutoff: u64) -> u64 {
    if cutoff > MAX_CUTOFF {
        MAX_CUTOFF
    } else {
        cutoff
    }
}

/// A band count brought into the parameter's range `[MIN_BANDS, MAX_BANDS]`.
pub open spec fn clamped_band_count(count: usize) -> usize {
    if count < MIN_BANDS {
        MIN_BANDS
    } else if count > MAX_BANDS {
        MAX_BANDS
    } else {
        count
    }
}

/// Brings a cutoff frequency into the parameter's range.
pub fn clamp_cutoff(cutoff: u64) -> (r: u64)
    ensures
        r == clamped_cutoff(cutoff),
{
    if cutoff > MAX_CUTOFF {
        MAX_CUTOFF
    } else {
        cutoff
    }
}

/// Brings a band count into the parameter's range.
pub fn clamp_band_count(count: usize) -> (r: usize)
    ensures
        r == clamped_band_count(count),
{
    if count < MIN_BANDS {
        MIN_BANDS
    } else if count > MAX_BANDS {
        MAX_BANDS
    } else {
        count
    }
}

/// The parameter values that hold for one block.
///
/// A snapshot is plain data and may be out of shape while automation moves the
/// parameters: the low cutoff may lie above the high one, and either may lie
/// above the Nyquist frequency of the current sample rate. Nothing downstream
/// takes its shape for granted.
#[derive(Clone, Copy, Debug, PartialEq, Eq, Structural)]
pub struct ParameterSnapshot {
    /// Lower end of the formant window, in millihertz.
    pub low_cutoff: u64,
    /// Upper end of the formant window, in millihertz.
    pub high_cutoff: u64,
    /// Number of bands the window is divided into.
    pub band_count: usize,
}

impl ParameterSnapshot {
    /// Each value lies in the range its parameter is registered with.
    pub open spec fn in_range(self) -> bool {
        &&& self.low_cutoff <= MAX_CUTOFF
        &&& self.high_cutoff <= MAX_CUTOFF
        &&& MIN_BANDS <= self.band_count <= MAX_BANDS
    }

    /// The snapshot is in shape for `sample_rate`: the cutoffs are ordered and
    /// do not exceed the Nyquist frequency, and the band count is in range.
    pub open spec fn valid_at(self, sample_rate: u64) -> bool {
        &&& self.low_cutoff <= self.high_cutoff
        &&& 2 * self.high_cutoff <= sample_rate
        &&& MIN_BANDS <= self.band_count <= MAX_BANDS
    }

    /// The formant window: the passband from the low cutoff to the high cutoff,
    /// as the snapshot has them.
    pub open spec fn spec_span(&self) -> Passband {
        Passband { low: self.low_cutoff, high: self.high_cutoff }
    }

    /// A snapshot of the given values, each brought into its parameter's range.
    pub fn new(low_cutoff: u64, high_cutoff: u64, band_count: usize) -> (r: Self)
        ensures
            r.low_cutoff == clamped_cutoff(low_cutoff),
            r.high_cutoff == clamped_cutoff(high_cutoff),
            r.band_count == clamped_band_count(band_count),
            r.in_range(),
    {
        ParameterSnapshot {
            low_cutoff: clamp_cutoff(low_cutoff),
            high_cutoff: clamp_cutoff(high_cutoff),
            band_count: clamp_band_count(band_count),
        }
    }

    /// The formant window: the passband from the low cutoff to the high cutoff,
    /// as the snapshot has them.
    #[verifier::when_used_as_spec(spec_span)]
    pub fn span(&self) -> (r: Passband)
        ensures
            r == self.spec_span(),
    {
        Passband { low: self.low_cutoff, high: self.high_cutoff }
    }

    /// Whether every value lies in its parameter's range.
    pub fn is_in_range(&self) -> (r: bool)
        ensures
            r == self.in_range(),
    {
        self.low_cutoff <= MAX_CUTOFF && self.high_cutoff <= MAX_CUTOFF && MIN_BANDS
            <= self.band_count && self.band_count <= MAX_BANDS
    }

    /// Whether the snapshot is in shape for `sample_rate`.
    pub fn is_valid_at(&self, sample_rate: u64) -> (r: bool)
        ensures
            r == self.valid_at(sample_rate),
    {
        self.low_cutoff <= self.high_cutoff && self.high_cutoff <= sample_rate / 2 && MIN_BANDS
            <= self.band_count && self.band_count <= MAX_BANDS
    }
}

impl Default for ParameterSnapshot {
    /// The values of a fresh parameter set: 300 Hz to 3400 Hz in 20 bands.
    fn default() -> (r: Self)
        ensures
            r.low_cutoff == DEFAULT_LOW_CUTOFF,
            r.high_cutoff == DEFAULT_HIGH_CUTOFF,
            r.band_count == DEFAULT_BANDS,
            r.in_range(),
    {
        ParameterSnapshot {
            low_cutoff: DEFAULT_LOW_CUTOFF,
            high_cutoff: DEFAULT_HIGH_CUTOFF,
            band_count: DEFAULT_BANDS,
        }
    }
}

} // verus!
