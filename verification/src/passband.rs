//! Passbands, and the division of a frequency window into bands.

use vstd::prelude::*;

verus! {

/// A frequency window from `low` to `high`, in millihertz.
///
/// A window with `low >= high` is empty: it names no band that a filter could
/// pass.
#[derive(Clone, Copy, Debug, PartialEq, Eq, Structural)]
pub struct Passband {
    /// Lower edge, in millihertz.
    pub low: u64,
    /// Upper edge, in millihertz.
    pub high: u64,
}

impl Passband {
    /// The window passes nothing.
    pub open spec fn is_empty(self) -> bool {
        self.low >= self.high
    }

    /// Distance between the edges; 0 for an empty window.
    pub open spec fn width(self) -> int {
        if self.low < self.high {
            self.high - self.low
        } else {
            0
        }
    }

    /// Midpoint of the edges, rounded down to the millihertz.
    pub open spec fn midpoint(self) -> int {
        (self.low + self.high) / 2
    }

    /// The window is a band that a digital filter at `sample_rate` can be
    /// asked for: it has a positive width and ends at or below the Nyquist
    /// frequency.
    pub open spec fn fits(self, sample_rate: u64) -> bool {
        &&& self.low < self.high
        &&& 2 * self.high <= sample_rate
    }

    /// The window with both edges brought down to the Nyquist frequency of
    /// `sample_rate` where they exceed it.
    pub open spec fn clamped(self, sample_rate: u64) -> Passband {
        let nyquist = sample_rate / 2;
        Passband {
            low: if self.low > nyquist { nyquist } else { self.low },
            high: if self.high > nyquist { nyquist } else { self.high },
        }
    }

    /// Whether the window passes nothing.
    pub fn is_degenerate(&self) -> (r: bool)
        ensures
            r == self.is_empty(),
    {
        self.low >= self.high
    }

    /// Distance between the edges; 0 for an empty window.
    pub fn bandwidth(&self) -> (r: u64)
        ensures
            r == self.width(),
    {
        if self.low < self.high {
            self.high - self.low
        } else {
            0
        }
    }

    /// Midpoint of the edges, rounded down to the millihertz.
    pub fn center(&self) -> (r: u64)
        ensures
            r == self.midpoint(),
    {
        if self.low <= self.high {
            self.low + (self.high - self.low) / 2
        } else {
            self.high + (self.low - self.high) / 2
        }
    }

    /// Whether the window is a band that a digital filter at `sample_rate` can
    /// be asked for.
    pub fn fits_under(&self, sample_rate: u64) -> (r: bool)
        ensures
            r == self.fits(sample_rate),
    {
        self.low < self.high && self.high <= sample_rate / 2
    }

    /// Brings both edges down to the Nyquist frequency of `sample_rate` where
    /// they exceed it. Edges at or below it stay where they are.
    pub fn clamp_to(&self, sample_rate: u64) -> (r: Passband)
        ensures
            r == self.clamped(sample_rate),
            2 * r.low <= sample_rate,
            2 * r.high <= sample_rate,
            r.low <= self.low,
            r.high <= self.high,
            self.fits(sample_rate) ==> r == *self,
    {
        let nyquist = sample_rate / 2;
        Passband {
            low: if self.low > nyquist { nyquist } else { self.low },
            high: if self.high > nyquist { nyquist } else { self.high },
        }
    }
}

/// How far above the window's lower edge the `index`-th of `count + 1` evenly
/// spaced band edges lies, for a window `width` wide. Edge 0 is the lower edge
/// of the window and edge `count` its upper edge.
pub open spec fn edge_offset(width: int, index: int, count: int) -> int {
    (index * width) / count
}

/// The `index`-th of the `count` bands that `span` is divided into: the window
/// between edge `index` and edge `index + 1`. Where `span` is empty, or there
/// is no such band, the result is the empty window at the lower edge of `span`.
pub open spec fn band_of(span: Passband, index: int, count: int) -> Passband {
    if span.low < span.high && 0 <= index < count {
        Passband {
            low: (span.low + edge_offset(span.width(), index, count)) as u64,
            high: (span.low + edge_offset(span.width(), index + 1, count)) as u64,
        }
    } else {
        Passband { low: span.low, high: span.low }
    }
}

/// Edge offsets start at 0, end at the window's width and never decrease.
pub proof fn lemma_edge_offsets_ordered(width: int, i: int, j: int, count: int)
    requires
        0 <= width,
        0 <= i <= j <= count,
        0 < count,
    ensures
        edge_offset(width, 0, count) == 0,
        edge_offset(width, count, count) == width,
        0 <= edge_offset(width, i, count) <= edge_offset(width, j, count) <= width,
{
    assert(edge_offset(width, 0, count) == 0) by (nonlinear_arith)
        requires
            0 < count,
    ;
    assert(edge_offset(width, count, count) == width) by (nonlinear_arith)
        requires
            0 < count,
    ;
    assert(0 <= edge_offset(width, i, count) <= edge_offset(width, j, count)) by (nonlinear_arith)
        requires
            0 <= width,
            0 <= i <= j,
            0 < count,
    ;
    assert(edge_offset(width, j, count) <= edge_offset(width, count, count)) by (nonlinear_arith)
        requires
            0 <= width,
            0 <= j <= count,
            0 < count,
    ;
}

/// Every band is as wide as the window divided by the band count, rounded down,
/// or one millihertz wider.
pub proof fn lemma_band_widths_even(width: int, index: int, count: int)
    requires
        0 <= width,
        0 <= index < count,
    ensures
        width / count <= edge_offset(width, index + 1, count) - edge_offset(width, index, count)
            <= width / count + 1,
{
    let q = (index * width) / count;
    let r = (index * width) % count;
    let a = width / count;
    let b = width % count;
    assert((index + 1) * width == (q + a) * count + (r + b)) by (nonlinear_arith)
        requires
            0 < count,
            q == (index * width) / count,
            r == (index * width) % count,
            a == width / count,
            b == width % count,
    ;
    assert(0 <= r < count && 0 <= b < count) by (nonlinear_arith)
        requires
            0 < count,
            r == (index * width) % count,
            b == width % count,
    ;
    let s = r + b;
    assert(q + a <= ((q + a) * count + s) / count <= q + a + 1) by (nonlinear_arith)
        requires
            0 < count,
            0 <= s < 2 * count,
    ;
}

/// The bands tile the window: the first starts at its lower edge, the last ends
/// at its upper edge, and each band ends where the next begins. No band reaches
/// outside the window, and none has its edges out of order.
pub proof fn lemma_bands_tile(span: Passband, index: int, count: int)
    requires
        span.low < span.high,
        0 <= index < count,
    ensures
        band_of(span, 0, count).low == span.low,
        band_of(span, count - 1, count).high == span.high,
        index + 1 < count ==> band_of(span, index, count).high == band_of(
            span,
            index + 1,
            count,
        ).low,
        span.low <= band_of(span, index, count).low <= band_of(span, index, count).high
            <= span.high,
{
    let w = span.width();
    lemma_edge_offsets_ordered(w, index, index + 1, count);
    lemma_edge_offsets_ordered(w, 0, 1, count);
    lemma_edge_offsets_ordered(w, count - 1, count, count);
    if index + 1 < count {
        lemma_edge_offsets_ordered(w, index + 1, index + 2, count);
    }
}

/// A window divided into one band is that band.
pub proof fn lemma_single_band_is_span(span: Passband)
    requires
        span.low < span.high,
    ensures
        band_of(span, 0, 1) == span,
{
    lemma_edge_offsets_ordered(span.width(), 0, 1, 1);
}

/// An empty window has only empty bands.
pub proof fn lemma_empty_span_has_empty_bands(span: Passband, index: int, count: int)
    requires
        span.is_empty(),
    ensures
        band_of(span, index, count).is_empty(),
{
}

/// The `index`-th of the `count` bands that `span` is divided into.
pub fn band_passband(span: Passband, index: usize, count: usize) -> (r: Passband)
    ensures
        r == band_of(span, index as int, count as int),
{
    if span.low < span.high && index < count {
        let width: u64 = span.high - span.low;
        proof {
            lemma_edge_offsets_ordered(width as int, index as int, index + 1, count as int);
            assert(index * width <= count * width && (index + 1) * width <= count * width
                && count * width <= 0xffff_ffff_ffff_ffff * 0xffff_ffff_ffff_ffff)
                by (nonlinear_arith)
                requires
                    index < count,
                    count <= 0xffff_ffff_ffff_ffff,
                    0 <= width <= 0xffff_ffff_ffff_ffff,
            ;
        }
        let below: u128 = (index as u128) * (width as u128) / (count as u128);
        let above: u128 = ((index as u128) + 1) * (width as u128) / (count as u128);
        Passband { low: span.low + (below as u64), high: span.low + (above as u64) }
    } else {
        Passband { low: span.low, high: span.low }
    }
}

} // verus!
