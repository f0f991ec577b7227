//! The filter bank: one design per active band, kept in step with the
//! parameters while redesigning as few bands as possible.
//!
//! A band is redesigned exactly when the design that its target passband and the
//! sample rate call for differs from the design it holds. A band whose design
//! stands is not touched at all.
//!
//! Blocks are filtered zero-phase, forward and backward, each on its own, so a
//! band's filter carries nothing from one block to the next but its
//! coefficients. What persists of a band is therefore its `FilterState`: as long
//! as that is unchanged, the band sounds as before.
//!
//! The coefficients themselves live with the caller, one object per band. The
//! bank tells the caller through a plan of `BandAction`s which of them to leave
//! alone and which to build anew, and the caller tells the bank through
//! `FilterBank::reject` when a design could not be built.

use vstd::prelude::*;
use crate::designer::{design, design_of, FilterDesign};
use crate::params::{clamp_band_count, clamped_band_count, ParameterSnapshot, MAX_BANDS};
use crate::passband::{band_of, band_passband, Passband};

verus! {

/// One band's live filter, as far as the bank decides about it.
#[derive(Clone, Copy, Debug, PartialEq, Eq, Structural)]
pub struct FilterState {
    /// The design the band's coefficients were asked for.
    pub design: FilterDesign,
    /// The coefficient designer refused the design, and the identity stands in
    /// for it until the band is redesigned.
    pub rejected: bool,
}

impl FilterState {
    /// The state of a band that has just been given `design`.
    pub open spec fn fresh(design: FilterDesign) -> FilterState {
        FilterState { design, rejected: false }
    }

    /// The filter that the band runs: its design, or the identity where the
    /// design was refused.
    pub open spec fn active(self) -> FilterDesign {
        if self.rejected {
            FilterDesign::PassThrough
        } else {
            self.design
        }
    }

    /// The filter that the band runs.
    pub fn active_design(&self) -> (d: FilterDesign)
        ensures
            d == self.active(),
    {
        if self.rejected {
            FilterDesign::PassThrough
        } else {
            self.design
        }
    }
}

/// What the owner of the coefficients has to do for one band after the bank has
/// changed.
#[derive(Clone, Copy, Debug, PartialEq, Eq, Structural)]
pub enum BandAction {
    /// The band existed before and its design stands: leave its filter alone.
    Keep,
    /// The band is new or its design has changed: build its filter from this
    /// design.
    Redesign(FilterDesign),
}

/// The design that band `index` of `count` is to have when the formant window is
/// `span`: the designer's answer for that band's share of the window, the window
/// first being clamped to the Nyquist frequency.
pub open spec fn target_design(
    span: Passband,
    sample_rate: u64,
    order: usize,
    index: int,
    count: int,
) -> FilterDesign {
    design_of(band_of(span.clamped(sample_rate), index, count), sample_rate, order)
}

/// The actions that lead from the bands `before` to the bands `after`: one per
/// band of `after`, `Keep` where the band was there before with the same design.
pub open spec fn band_actions(before: Seq<FilterState>, after: Seq<FilterState>) -> Seq<
    BandAction,
> {
    Seq::new(
        after.len(),
        |i: int|
            if i < before.len() && before[i].design == after[i].design {
                BandAction::Keep
            } else {
                BandAction::Redesign(after[i].design)
            },
    )
}

/// A filter bank as a mathematical value.
pub struct BankView {
    /// Order of every band-pass in the bank.
    pub order: usize,
    /// The formant window that the bank was last tuned to.
    pub span: Passband,
    /// The sample rate that the bank was last tuned to.
    pub sample_rate: u64,
    /// The bands, lowest first.
    pub bands: Seq<FilterState>,
}

impl BankView {
    /// The bank holds no more bands than a bank may, and every design in it is
    /// admissible.
    pub open spec fn wf(self) -> bool {
        &&& self.bands.len() <= MAX_BANDS
        &&& forall|i: int|
            0 <= i < self.bands.len() ==> (#[trigger] self.bands[i]).design.admissible()
    }

    /// The bank after its band count has been set to `count`, brought into
    /// `1..=MAX_BANDS`. Bands that stay are unchanged; a band that is added
    /// starts with the design that the bank's window and sample rate call for at
    /// the new band count.
    pub open spec fn resized(self, count: usize) -> BankView {
        let n = clamped_band_count(count);
        BankView {
            bands: Seq::new(
                n as nat,
                |i: int|
                    if i < self.bands.len() {
                        self.bands[i]
                    } else {
                        FilterState::fresh(
                            target_design(self.span, self.sample_rate, self.order, i, n as int),
                        )
                    },
            ),
            ..self
        }
    }

    /// The bank after it has been tuned to `span` and `sample_rate` at its
    /// present band count. A band that already holds its target design is
    /// unchanged; any other is given its target design afresh.
    pub open spec fn retuned(self, span: Passband, sample_rate: u64) -> BankView {
        let n = self.bands.len();
        BankView {
            order: self.order,
            span,
            sample_rate,
            bands: Seq::new(
                n,
                |i: int|
                    {
                        let target = target_design(span, sample_rate, self.order, i, n as int);
                        if self.bands[i].design == target {
                            self.bands[i]
                        } else {
                            FilterState::fresh(target)
                        }
                    },
            ),
        }
    }

    /// The bank after it has been brought in step with `snapshot` at
    /// `sample_rate`: resized to the snapshot's band count, then tuned to its
    /// window.
    pub open spec fn synced(self, snapshot: ParameterSnapshot, sample_rate: u64) -> BankView {
        self.resized(snapshot.band_count).retuned(snapshot.span(), sample_rate)
    }

    /// The bank after the design of band `index` has been refused.
    pub open spec fn rejected_at(self, index: int) -> BankView {
        BankView {
            bands: self.bands.update(
                index,
                FilterState { design: self.bands[index].design, rejected: true },
            ),
            ..self
        }
    }
}

/// The bank of band filters. It owns one `FilterState` per active band.
pub struct FilterBank {
    order: usize,
    span: Passband,
    sample_rate: u64,
    bands: Vec<FilterState>,
}

impl View for FilterBank {
    type V = BankView;

    closed spec fn view(&self) -> BankView {
        BankView {
            order: self.order,
            span: self.span,
            sample_rate: self.sample_rate,
            bands: self.bands@,
        }
    }
}

impl FilterBank {
    /// A bank of filters of `order` with no band yet, tuned to nothing: its
    /// window is empty and its sample rate 0. Room for the largest band count is
    /// set aside here, so that no later change of the band count needs more.
    pub fn new(order: usize) -> (bank: Self)
        ensures
            bank@ == (BankView {
                order,
                span: Passband { low: 0, high: 0 },
                sample_rate: 0,
                bands: Seq::empty(),
            }),
            bank@.wf(),
    {
        FilterBank {
            order,
            span: Passband { low: 0, high: 0 },
            sample_rate: 0,
            bands: Vec::with_capacity(MAX_BANDS),
        }
    }

    /// Whether the bank is well formed. Every bank that this module hands out
    /// is, and stays so under every method; the test is for callers that cannot
    /// know.
    pub fn is_well_formed(&self) -> (r: bool)
        ensures
            r == self@.wf(),
    {
        let n = self.bands.len();
        if n > MAX_BANDS {
            return false;
        }
        let mut i: usize = 0;
        while i < n
            invariant
                i <= n,
                n == self.bands@.len(),
                n <= MAX_BANDS,
                forall|j: int| 0 <= j < i ==> (#[trigger] self.bands@[j]).design.admissible(),
            decreases n - i,
        {
            if !self.bands[i].design.is_admissible() {
                return false;
            }
            i += 1;
        }
        true
    }

    /// Number of active bands.
    pub fn len(&self) -> (n: usize)
        ensures
            n == self@.bands.len(),
    {
        self.bands.len()
    }

    /// Order of every band-pass in the bank.
    pub fn order(&self) -> (k: usize)
        ensures
            k == self@.order,
    {
        self.order
    }

    /// The formant window that the bank was last tuned to.
    pub fn span(&self) -> (p: Passband)
        ensures
            p == self@.span,
    {
        self.span
    }

    /// The sample rate that the bank was last tuned to.
    pub fn sample_rate(&self) -> (rate: u64)
        ensures
            rate == self@.sample_rate,
    {
        self.sample_rate
    }

    /// The state of band `index`, or `None` where the bank has no such band.
    pub fn band(&self, index: usize) -> (state: Option<FilterState>)
        ensures
            index < self@.bands.len() ==> state == Some(self@.bands[index as int]),
            index >= self@.bands.len() ==> state is None,
    {
        if index < self.bands.len() {
            Some(self.bands[index])
        } else {
            None
        }
    }

    /// Sets the band count to `count`, brought into `1..=MAX_BANDS`. Bands that
    /// stay are not touched; bands beyond the new count are dropped; a band that
    /// is added starts with the design that the bank's window and sample rate
    /// call for at the new band count.
    pub fn resize(&mut self, count: usize)
        requires
            old(self)@.wf(),
        ensures
            final(self)@ == old(self)@.resized(count),
            final(self)@.wf(),
    {
        let n = clamp_band_count(count);
        let ghost before = self@;
        if n < self.bands.len() {
            self.bands.truncate(n);
        } else {
            let window = self.span.clamp_to(self.sample_rate);
            let mut i: usize = self.bands.len();
            while i < n
                invariant
                    i == self.bands.len(),
                    before.bands.len() <= i <= n,
                    n == clamped_band_count(count),
                    window == before.span.clamped(before.sample_rate),
                    self.order == before.order,
                    self.span == before.span,
                    self.sample_rate == before.sample_rate,
                    before.wf(),
                    forall|j: int|
                        0 <= j < i ==> (#[trigger] self.bands@[j]) == before.resized(count).bands[j],
                decreases n - i,
            {
                let d = design(band_passband(window, i, n), self.sample_rate, self.order);
                self.bands.push(FilterState { design: d, rejected: false });
                i += 1;
            }
        }
        assert(self@.bands =~= before.resized(count).bands);
    }

    /// Brings the bank in step with `snapshot` at `sample_rate`, and writes into
    /// `plan` what that means for each band's filter.
    ///
    /// The bank is resized to the snapshot's band count. Then every band whose
    /// design differs from the design that its share of the snapshot's window
    /// calls for at `sample_rate` is given that design; every other band is left
    /// as it is. `plan` is overwritten with one action per band: `Keep` for a
    /// band that was there before and holds the same design as before,
    /// `Redesign` with the band's design for any other.
    pub fn sync(
        &mut self,
        snapshot: &ParameterSnapshot,
        sample_rate: u64,
        plan: &mut Vec<BandAction>,
    )
        requires
            old(self)@.wf(),
        ensures
            final(self)@ == old(self)@.synced(*snapshot, sample_rate),
            final(self)@.wf(),
            final(plan)@ == band_actions(old(self)@.bands, final(self)@.bands),
    {
        let ghost before = self@;
        let old_len = self.bands.len();
        self.resize(snapshot.band_count);
        let ghost resized = self@;
        let span = snapshot.span();
        let window = span.clamp_to(sample_rate);
        self.span = span;
        self.sample_rate = sample_rate;
        plan.clear();
        let n = self.bands.len();
        let mut i: usize = 0;
        while i < n
            invariant
                i <= n,
                n == self.bands.len(),
                n == resized.bands.len(),
                n <= MAX_BANDS,
                old_len == before.bands.len(),
                resized == before.resized(snapshot.band_count),
                resized.wf(),
                span == snapshot.span(),
                window == span.clamped(sample_rate),
                self.order == resized.order,
                self.span == span,
                self.sample_rate == sample_rate,
                plan@.len() == i,
                forall|j: int|
                    i <= j < n ==> (#[trigger] self.bands@[j]) == resized.bands[j],
                forall|j: int|
                    0 <= j < i ==> (#[trigger] self.bands@[j]) == resized.retuned(
                        span,
                        sample_rate,
                    ).bands[j],
                forall|j: int|
                    0 <= j < i ==> (#[trigger] plan@[j]) == band_actions(
                        before.bands,
                        resized.retuned(span, sample_rate).bands,
                    )[j],
            decreases n - i,
        {
            let target = design(band_passband(window, i, n), sample_rate, self.order);
            let held = self.bands[i];
            if held.design == target {
                if i < old_len {
                    plan.push(BandAction::Keep);
                } else {
                    plan.push(BandAction::Redesign(target));
                }
            } else {
                self.bands[i] = FilterState { design: target, rejected: false };
                plan.push(BandAction::Redesign(target));
            }
            i += 1;
        }
        assert(self@.bands =~= before.synced(*snapshot, sample_rate).bands);
        assert(plan@ =~= band_actions(before.bands, self@.bands));
    }

    /// Records that the coefficient designer refused the design of band `index`:
    /// from now on the band runs the identity, and it is not asked for again
    /// until its design changes. Returns whether the bank has such a band; where
    /// it has none, nothing changes.
    pub fn reject(&mut self, index: usize) -> (known: bool)
        requires
            old(self)@.wf(),
        ensures
            known == (index < old(self)@.bands.len()),
            known ==> final(self)@ == old(self)@.rejected_at(index as int),
            !known ==> final(self)@ == old(self)@,
            final(self)@.wf(),
    {
        if index < self.bands.len() {
            let held = self.bands[index];
            self.bands[index] = FilterState { design: held.design, rejected: true };
            assert(self@.bands =~= old(self)@.rejected_at(index as int).bands);
            true
        } else {
            false
        }
    }
}

/// Syncing twice with the same snapshot and sample rate redesigns nothing the
/// second time: the bank that the first sync leaves is left as it is by the
/// second, and every action of the second is `Keep`.
pub proof fn lemma_sync_idempotent(bank: BankView, snapshot: ParameterSnapshot, sample_rate: u64)
    ensures
        bank.synced(snapshot, sample_rate).synced(snapshot, sample_rate) == bank.synced(
            snapshot,
            sample_rate,
        ),
        band_actions(
            bank.synced(snapshot, sample_rate).bands,
            bank.synced(snapshot, sample_rate).synced(snapshot, sample_rate).bands,
        ) == Seq::new(bank.synced(snapshot, sample_rate).bands.len(), |i: int| BandAction::Keep),
{
    let once = bank.synced(snapshot, sample_rate);
    let again = once.resized(snapshot.band_count);
    assert(again.bands =~= once.bands);
    let twice = once.synced(snapshot, sample_rate);
    assert(twice.bands =~= once.bands);
    assert(band_actions(once.bands, twice.bands) =~= Seq::new(
        once.bands.len(),
        |i: int| BandAction::Keep,
    ));
}

/// Resizing keeps the bands that stay exactly as they were, whether the bank
/// grows or shrinks: with `k` bands before and `k'` after, the first
/// `min(k, k')` bands are unchanged.
pub proof fn lemma_resize_keeps_prefix(bank: BankView, count: usize)
    ensures
        bank.resized(count).bands.len() == clamped_band_count(count),
        bank.resized(count).order == bank.order,
        bank.resized(count).span == bank.span,
        bank.resized(count).sample_rate == bank.sample_rate,
        forall|i: int|
            0 <= i < bank.bands.len() && i < clamped_band_count(count) ==> (
            #[trigger] bank.resized(count).bands[i]) == bank.bands[i],
{
}

/// A sync redesigns exactly the bands whose design has to change. Band `index`
/// of the synced bank is kept if and only if it was in the bank before with the
/// design that the new parameters call for, and a band that is kept is the very
/// state it was. Any other band holds its target design afresh.
pub proof fn lemma_sync_redesigns_only_changed(
    bank: BankView,
    snapshot: ParameterSnapshot,
    sample_rate: u64,
    index: int,
)
    requires
        0 <= index < clamped_band_count(snapshot.band_count),
    ensures
        ({
            let after = bank.synced(snapshot, sample_rate);
            let count = clamped_band_count(snapshot.band_count) as int;
            let target = target_design(snapshot.span(), sample_rate, bank.order, index, count);
            let stands = index < bank.bands.len() && bank.bands[index].design == target;
            &&& after.bands.len() == count
            &&& after.bands[index].design == target
            &&& stands ==> after.bands[index] == bank.bands[index]
            &&& !stands ==> after.bands[index] == FilterState::fresh(target)
            &&& stands <==> band_actions(bank.bands, after.bands)[index] == BandAction::Keep
            &&& !stands <==> band_actions(bank.bands, after.bands)[index] == BandAction::Redesign(
                target,
            )
        }),
{
}

/// A synced bank is well formed, whatever it held before: it has the snapshot's
/// band count, brought into range, and every band holds the admissible design
/// that the snapshot and the sample rate call for.
pub proof fn lemma_synced_bank_is_well_formed(
    bank: BankView,
    snapshot: ParameterSnapshot,
    sample_rate: u64,
)
    ensures
        bank.synced(snapshot, sample_rate).wf(),
        bank.synced(snapshot, sample_rate).bands.len() == clamped_band_count(snapshot.band_count),
        bank.synced(snapshot, sample_rate).order == bank.order,
        bank.synced(snapshot, sample_rate).span == snapshot.span(),
        bank.synced(snapshot, sample_rate).sample_rate == sample_rate,
        forall|i: int|
            0 <= i < clamped_band_count(snapshot.band_count) ==> (#[trigger] bank.synced(
                snapshot,
                sample_rate,
            ).bands[i]).design == target_design(
                snapshot.span(),
                sample_rate,
                bank.order,
                i,
                clamped_band_count(snapshot.band_count) as int,
            ),
{
}

/// With one band, the band's design is the designer's answer for the whole
/// formant window, clamped to the Nyquist frequency.
pub proof fn lemma_single_band_takes_window(
    bank: BankView,
    snapshot: ParameterSnapshot,
    sample_rate: u64,
)
    requires
        snapshot.band_count == 1,
    ensures
        bank.synced(snapshot, sample_rate).bands.len() == 1,
        bank.synced(snapshot, sample_rate).bands[0].design == design_of(
            snapshot.span().clamped(sample_rate),
            sample_rate,
            bank.order,
        ),
{
    let window = snapshot.span().clamped(sample_rate);
    if window.low < window.high {
        crate::passband::lemma_single_band_is_span(window);
    }
}

/// With the cutoffs equal or crossed, every band of the synced bank is the
/// identity.
pub proof fn lemma_degenerate_cutoffs_pass_through(
    bank: BankView,
    snapshot: ParameterSnapshot,
    sample_rate: u64,
    index: int,
)
    requires
        snapshot.low_cutoff >= snapshot.high_cutoff,
        0 <= index < clamped_band_count(snapshot.band_count),
    ensures
        bank.synced(snapshot, sample_rate).bands[index].design is PassThrough,
        bank.synced(snapshot, sample_rate).bands[index].active() is PassThrough,
{
}

} // verus!
