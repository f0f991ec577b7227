//! The filter designer's decision: which digital band-pass, if any, a requested
//! passband is realised by.
//!
//! Coefficients are computed elsewhere, from the decision alone. The decision
//! keeps every request inside the region where a Butterworth band-pass exists
//! and is stable: both edges strictly between 0 and the Nyquist frequency, the
//! lower strictly below the upper. A request that cannot be brought there is
//! answered with the identity filter, never with an error.
//!
//! Whether the coefficients of an admissible design come out usable in floating
//! point is for whoever computes them to say. Where they do not, the bank is
//! told so and lets the band run the identity.

use vstd::prelude::*;
use crate::passband::Passband;

verus! {

/// Order of the band-pass that a bank asks for unless told otherwise.
pub const DEFAULT_ORDER: usize = 2;

/// Highest filter order the designer realises. A band-pass of order `k` has
/// `2k` poles, and its coefficients are kept in transfer-function form, where
/// rounding moves the poles of a narrow band the further the more of them there
/// are. From order 3 on, narrow bands come out of that form unstable, so the
/// designer stops at 2.
pub const MAX_ORDER: usize = 2;

/// Samples that zero-phase filtering mirrors at each end of a block, per unit of
/// band-pass order: three for each of the two poles that a unit of order adds.
pub const PADDING_PER_ORDER: usize = 6;

/// What one band asks of the coefficient designer.
#[derive(Clone, Copy, Debug, PartialEq, Eq, Structural)]
pub enum FilterDesign {
    /// The identity filter: output equals input.
    PassThrough,
    /// A Butterworth band-pass between `low` and `high` (millihertz) at
    /// `sample_rate` (millihertz), of the given order.
    BandPass { low: u64, high: u64, sample_rate: u64, order: usize },
}

impl FilterDesign {
    /// The design is the identity, or a band-pass in the region where one exists
    /// and is stable: `0 < low < high < sample_rate / 2` and an order from 1 to
    /// `MAX_ORDER`.
    pub open spec fn admissible(self) -> bool {
        match self {
            FilterDesign::PassThrough => true,
            FilterDesign::BandPass { low, high, sample_rate, order } => {
                &&& 0 < low < high
                &&& 2 * high < sample_rate
                &&& 1 <= order <= MAX_ORDER
            },
        }
    }

    /// Length of the shortest block that the design can filter forward and
    /// backward. The identity takes any block; a band-pass takes a block longer
    /// than the padding mirrored from its interior.
    pub open spec fn shortest_block(self) -> int {
        match self {
            FilterDesign::PassThrough => 0,
            FilterDesign::BandPass { order, .. } => PADDING_PER_ORDER * order + 1,
        }
    }

    /// Whether the design is admissible.
    pub fn is_admissible(&self) -> (r: bool)
        ensures
            r == self.admissible(),
    {
        match self {
            FilterDesign::PassThrough => true,
            FilterDesign::BandPass { low, high, sample_rate, order } => {
                0 < *low && *low < *high && *high < *sample_rate && *high < *sample_rate - *high
                    && 1 <= *order && *order <= MAX_ORDER
            },
        }
    }

    /// Whether the design is the identity.
    pub fn is_pass_through(&self) -> (r: bool)
        ensures
            r == (*self is PassThrough),
    {
        match self {
            FilterDesign::PassThrough => true,
            FilterDesign::BandPass { .. } => false,
        }
    }

    /// Length of the shortest block that the design can filter forward and
    /// backward.
    pub fn min_block_len(&self) -> (r: usize)
        requires
            self.shortest_block() <= usize::MAX,
        ensures
            r == self.shortest_block(),
    {
        match self {
            FilterDesign::PassThrough => 0,
            FilterDesign::BandPass { order, .. } => PADDING_PER_ORDER * *order + 1,
        }
    }
}

/// The highest band edge that lies strictly below the Nyquist frequency of
/// `sample_rate`; 0 where there is none.
pub open spec fn highest_edge(sample_rate: u64) -> u64 {
    if sample_rate == 0 {
        0
    } else {
        ((sample_rate - 1) / 2) as u64
    }
}

/// The design that answers a request for `request` at `sample_rate` with a
/// filter of `order`.
///
/// The lower edge is raised to one millihertz where it is 0, and the upper edge
/// is lowered to `highest_edge(sample_rate)` where it exceeds it. If the edges
/// are then still in order and the order is one the designer realises, the
/// design is that band-pass; otherwise it is the identity.
pub open spec fn design_of(request: Passband, sample_rate: u64, order: usize) -> FilterDesign {
    let low = if request.low < 1 { 1 } else { request.low };
    let top = highest_edge(sample_rate);
    let high = if request.high > top { top } else { request.high };
    if 1 <= order <= MAX_ORDER && low < high {
        FilterDesign::BandPass { low, high, sample_rate, order }
    } else {
        FilterDesign::PassThrough
    }
}

/// Settles the design for a requested passband. Never fails: a request that no
/// band-pass can meet gets the identity.
pub fn design(request: Passband, sample_rate: u64, order: usize) -> (d: FilterDesign)
    ensures
        d == design_of(request, sample_rate, order),
        d.admissible(),
{
    let low: u64 = if request.low < 1 { 1 } else { request.low };
    let top: u64 = if sample_rate == 0 { 0 } else { (sample_rate - 1) / 2 };
    let high: u64 = if request.high > top { top } else { request.high };
    if 1 <= order && order <= MAX_ORDER && low < high {
        FilterDesign::BandPass { low, high, sample_rate, order }
    } else {
        FilterDesign::PassThrough
    }
}

/// Every design the designer settles on is admissible, whatever was requested:
/// a band-pass it asks for has both edges strictly between 0 and the Nyquist
/// frequency, in order, and an order it realises.
pub proof fn lemma_design_admissible(request: Passband, sample_rate: u64, order: usize)
    ensures
        design_of(request, sample_rate, order).admissible(),
{
}

/// An empty request, a sample rate of 0 and an order outside `1..=MAX_ORDER`
/// each get the identity.
pub proof fn lemma_unmeetable_request_passes_through(
    request: Passband,
    sample_rate: u64,
    order: usize,
)
    requires
        request.is_empty() || sample_rate == 0 || order < 1 || order > MAX_ORDER,
    ensures
        design_of(request, sample_rate, order) is PassThrough,
{
}

/// A request that fits under the Nyquist frequency and is at least three
/// millihertz wide gets a band-pass, and the band-pass has the requested edges
/// but for one millihertz at either end: the lower edge is moved only off 0, the
/// upper only off the Nyquist frequency.
pub proof fn lemma_fitting_request_is_met(request: Passband, sample_rate: u64, order: usize)
    requires
        request.fits(sample_rate),
        request.low + 3 <= request.high,
        1 <= order <= MAX_ORDER,
    ensures
        design_of(request, sample_rate, order) matches FilterDesign::BandPass {
            low,
            high,
            sample_rate: rate,
            order: k,
        } && {
            &&& rate == sample_rate
            &&& k == order
            &&& request.low <= low <= request.low + 1
            &&& request.high - 1 <= high <= request.high
            &&& (request.low > 0 ==> low == request.low)
            &&& (2 * request.high < sample_rate ==> high == request.high)
        },
{
}

/// The designer is settled on its own answers: asked for the window of a
/// band-pass it has designed, at the same rate and order, it designs the same
/// band-pass again.
pub proof fn lemma_design_settles(request: Passband, sample_rate: u64, order: usize)
    ensures
        design_of(request, sample_rate, order) matches FilterDesign::BandPass { low, high, .. }
            ==> design_of(Passband { low, high }, sample_rate, order) == design_of(
            request,
            sample_rate,
            order,
        ),
{
}

} // verus!
