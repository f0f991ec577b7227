//! Control core of a band-pass filter bank for real-time formant shaping.
//!
//! The crate decides; it does not filter. From a snapshot of three user
//! parameters (low cutoff, high cutoff, band count) and the sample rate it
//! derives one passband per band, settles which digital band-pass each band may
//! ask of a coefficient designer, keeps a bank of those decisions in step with
//! the parameters while redesigning as few bands as possible, and judges every
//! incoming block: decline it, leave it untouched, or filter it with one band
//! or with the sum of all bands.
//!
//! Every quantity here is an integer. Frequencies and sample rates are whole
//! millihertz, which is also the resolution at which two requests count as the
//! same request. Sample arithmetic is the caller's business: the caller owns
//! the coefficient objects, one per band, and rebuilds exactly those that the
//! bank reports as redesigned.

pub mod params;
pub mod passband;
pub mod designer;
pub mod bank;
pub mod block;
