//! The block processor's decisions: whether a block is taken at all, and by
//! which route its samples reach the output.

use vstd::prelude::*;
use crate::bank::{band_actions, BandAction, BankView, FilterBank, FilterState};
use crate::designer::design_of;
use crate::params::ParameterSnapshot;
use crate::passband::Passband;

verus! {

/// Most channels a block can have. Mono and stereo blocks are taken.
pub const MAX_CHANNELS: usize = 2;

/// Why a block is declined. A declined block is not read and not written.
#[derive(Clone, Copy, Debug, PartialEq, Eq, Structural)]
pub enum DeclineReason {
    /// The block has no channel, or more than `MAX_CHANNELS`.
    UnsupportedChannelCount,
    /// The channels of the block differ in length.
    MismatchedChannelLengths,
    /// The block is longer than the working buffers that were set aside.
    BlockTooLong,
}

/// How the samples of a block that is taken reach the output.
#[derive(Clone, Copy, Debug, PartialEq, Eq, Structural)]
pub enum Route {
    /// The output is the input: the block stays as it is.
    Bypass,
    /// The bank has one band, and its filtered signal is the output.
    Single,
    /// The output is the sum of what every band gives; a band that runs the
    /// identity gives the input.
    Sum,
}

/// All channels have the length of the first.
pub open spec fn uniform(channel_lens: Seq<usize>) -> bool {
    forall|i: int|
        0 <= i < channel_lens.len() ==> (#[trigger] channel_lens[i]) == channel_lens[0]
}

/// The verdict on a block whose channels have the lengths `channel_lens`, when
/// working buffers for `max_block_len` samples are set aside: the length of the
/// block, or the first of the reasons to decline it that applies, in the order
/// channel count, channel lengths, block length.
pub open spec fn layout_verdict(channel_lens: Seq<usize>, max_block_len: usize) -> Result<
    usize,
    DeclineReason,
> {
    if channel_lens.len() < 1 || channel_lens.len() > MAX_CHANNELS {
        Err(DeclineReason::UnsupportedChannelCount)
    } else if !uniform(channel_lens) {
        Err(DeclineReason::MismatchedChannelLengths)
    } else if channel_lens[0] > max_block_len {
        Err(DeclineReason::BlockTooLong)
    } else {
        Ok(channel_lens[0])
    }
}

/// Every band runs the identity.
pub open spec fn all_pass_through(bands: Seq<FilterState>) -> bool {
    forall|i: int| 0 <= i < bands.len() ==> (#[trigger] bands[i]).active() is PassThrough
}

/// A block of `block_len` samples is long enough for the filter of every band.
pub open spec fn block_fits(bands: Seq<FilterState>, block_len: usize) -> bool {
    forall|i: int|
        0 <= i < bands.len() ==> (#[trigger] bands[i]).active().shortest_block() <= block_len
}

/// The route of a block of `block_len` samples through `bands`.
///
/// The block bypasses the bank where no band would change it, and where it is
/// too short for a band's filter to run. Otherwise a bank of one band writes
/// that band's signal, and a bank of several writes their sum.
pub open spec fn route_of(bands: Seq<FilterState>, block_len: usize) -> Route {
    if all_pass_through(bands) || !block_fits(bands, block_len) {
        Route::Bypass
    } else if bands.len() == 1 {
        Route::Single
    } else {
        Route::Sum
    }
}

/// Judges the layout of a block from the lengths of its channels.
pub fn check_layout(channel_lens: &[usize], max_block_len: usize) -> (verdict: Result<
    usize,
    DeclineReason,
>)
    ensures
        verdict == layout_verdict(channel_lens@, max_block_len),
{
    let channels = channel_lens.len();
    if channels < 1 || channels > MAX_CHANNELS {
        return Err(DeclineReason::UnsupportedChannelCount);
    }
    let len = channel_lens[0];
    let mut i: usize = 1;
    while i < channels
        invariant
            1 <= i <= channels <= MAX_CHANNELS,
            channels == channel_lens@.len(),
            len == channel_lens@[0],
            forall|j: int| 0 <= j < i ==> (#[trigger] channel_lens@[j]) == len,
        decreases channels - i,
    {
        if channel_lens[i] != len {
            assert(channel_lens@[i as int] != channel_lens@[0]);
            return Err(DeclineReason::MismatchedChannelLengths);
        }
        i += 1;
    }
    if len > max_block_len {
        Err(DeclineReason::BlockTooLong)
    } else {
        Ok(len)
    }
}

/// Picks the route of a block of `block_len` samples through the bank.
pub fn route(bank: &FilterBank, block_len: usize) -> (r: Route)
    requires
        bank@.wf(),
    ensures
        r == route_of(bank@.bands, block_len),
{
    let n = bank.len();
    let mut idle = true;
    let mut fits = true;
    let mut i: usize = 0;
    while i < n
        invariant
            i <= n,
            n == bank@.bands.len(),
            bank@.wf(),
            idle <==> forall|j: int|
                0 <= j < i ==> (#[trigger] bank@.bands[j]).active() is PassThrough,
            fits <==> forall|j: int|
                0 <= j < i ==> (#[trigger] bank@.bands[j]).active().shortest_block() <= block_len,
        decreases n - i,
    {
        let active = bank.band(i).unwrap().active_design();
        assert(bank@.bands[i as int].design.admissible());
        if !active.is_pass_through() {
            idle = false;
        }
        if active.min_block_len() > block_len {
            fits = false;
        }
        i += 1;
    }
    if idle || !fits {
        Route::Bypass
    } else if n == 1 {
        Route::Single
    } else {
        Route::Sum
    }
}

/// The block processor as a mathematical value.
pub struct ProcessorView {
    /// The filter bank.
    pub bank: BankView,
    /// Length of the longest block that working buffers are set aside for.
    pub max_block_len: usize,
}

/// The block processor: the filter bank together with the block length that the
/// caller's working buffers are set aside for.
pub struct BlockProcessor {
    bank: FilterBank,
    max_block_len: usize,
}

impl View for BlockProcessor {
    type V = ProcessorView;

    closed spec fn view(&self) -> ProcessorView {
        ProcessorView { bank: self.bank@, max_block_len: self.max_block_len }
    }
}

impl BlockProcessor {
    /// A processor with an empty bank of filters of `order`, for blocks of up to
    /// `max_block_len` samples.
    pub fn new(order: usize, max_block_len: usize) -> (processor: Self)
        ensures
            processor@ == (ProcessorView {
                bank: BankView {
                    order,
                    span: Passband { low: 0, high: 0 },
                    sample_rate: 0,
                    bands: Seq::empty(),
                },
                max_block_len,
            }),
            processor@.bank.wf(),
    {
        BlockProcessor { bank: FilterBank::new(order), max_block_len }
    }

    /// Takes note, on activation, of the block length that working buffers are
    /// now set aside for. The bank stays as it is.
    pub fn activate(&mut self, max_block_len: usize)
        ensures
            final(self)@.bank == old(self)@.bank,
            final(self)@.max_block_len == max_block_len,
    {
        self.max_block_len = max_block_len;
    }

    /// Whether the processor's bank is well formed; see
    /// `FilterBank::is_well_formed`.
    pub fn is_well_formed(&self) -> (r: bool)
        ensures
            r == self@.bank.wf(),
    {
        self.bank.is_well_formed()
    }

    /// The filter bank.
    pub fn bank(&self) -> (bank: &FilterBank)
        ensures
            bank@ == self@.bank,
    {
        &self.bank
    }

    /// Length of the longest block that working buffers are set aside for.
    pub fn max_block_len(&self) -> (len: usize)
        ensures
            len == self@.max_block_len,
    {
        self.max_block_len
    }

    /// Opens the processing of one block: judges its layout, brings the bank in
    /// step with the parameters, and picks the block's route.
    ///
    /// A block whose layout breaks the host's side of the contract is declined
    /// with the reason, and the bank is not touched. Any other block is taken:
    /// the bank is synced with `snapshot` at `sample_rate`, and the result is
    /// the route of the block through the synced bank. Either way `plan` is
    /// overwritten with the actions that lead from the bank as it was to the
    /// bank as it is.
    pub fn begin_block(
        &mut self,
        snapshot: &ParameterSnapshot,
        sample_rate: u64,
        channel_lens: &[usize],
        plan: &mut Vec<BandAction>,
    ) -> (decision: Result<Route, DeclineReason>)
        requires
            old(self)@.bank.wf(),
        ensures
            final(self)@.max_block_len == old(self)@.max_block_len,
            final(self)@.bank.wf(),
            final(plan)@ == band_actions(old(self)@.bank.bands, final(self)@.bank.bands),
            match layout_verdict(channel_lens@, old(self)@.max_block_len) {
                Err(reason) => {
                    &&& decision == Err::<Route, DeclineReason>(reason)
                    &&& final(self)@.bank == old(self)@.bank
                },
                Ok(block_len) => {
                    &&& final(self)@.bank == old(self)@.bank.synced(*snapshot, sample_rate)
                    &&& decision == Ok::<Route, DeclineReason>(
                        route_of(final(self)@.bank.bands, block_len),
                    )
                },
            },
    {
        match check_layout(channel_lens, self.max_block_len) {
            Err(reason) => {
                plan.clear();
                let n = self.bank.len();
                let mut i: usize = 0;
                while i < n
                    invariant
                        i <= n,
                        plan@.len() == i,
                        forall|j: int| 0 <= j < i ==> (#[trigger] plan@[j]) == BandAction::Keep,
                    decreases n - i,
                {
                    plan.push(BandAction::Keep);
                    i += 1;
                }
                assert(plan@ =~= band_actions(self@.bank.bands, self@.bank.bands));
                Err(reason)
            },
            Ok(block_len) => {
                self.bank.sync(snapshot, sample_rate, plan);
                Ok(route(&self.bank, block_len))
            },
        }
    }

    /// Records that the coefficient designer refused the design of band `index`;
    /// see `FilterBank::reject`. The route of the current block is to be picked
    /// again afterwards.
    pub fn reject(&mut self, index: usize) -> (known: bool)
        requires
            old(self)@.bank.wf(),
        ensures
            known == (index < old(self)@.bank.bands.len()),
            known ==> final(self)@.bank == old(self)@.bank.rejected_at(index as int),
            !known ==> final(self)@.bank == old(self)@.bank,
            final(self)@.max_block_len == old(self)@.max_block_len,
            final(self)@.bank.wf(),
    {
        self.bank.reject(index)
    }

    /// Picks the route of a block of `block_len` samples through the bank as it
    /// is now.
    pub fn route(&self, block_len: usize) -> (r: Route)
        requires
            self@.bank.wf(),
        ensures
            r == route_of(self@.bank.bands, block_len),
    {
        route(&self.bank, block_len)
    }
}

/// A bank of one band never sums, and a block that is routed through the single
/// band is long enough for the band's filter, which is not the identity.
pub proof fn lemma_single_band_route(bands: Seq<FilterState>, block_len: usize)
    requires
        bands.len() == 1,
    ensures
        route_of(bands, block_len) != Route::Sum,
        route_of(bands, block_len) == Route::Single <==> (bands[0].active() is BandPass
            && bands[0].active().shortest_block() <= block_len),
{
    if bands[0].active() is PassThrough {
        assert(all_pass_through(bands));
    } else {
        assert(!all_pass_through(bands));
        if bands[0].active().shortest_block() <= block_len {
            assert(block_fits(bands, block_len));
        } else {
            assert(!block_fits(bands, block_len));
        }
    }
}

/// With a band count of one, a block is either left as it is or written with the
/// signal of one filter, and that filter is the designer's answer for the whole
/// formant window. Nothing is summed.
pub proof fn lemma_single_band_writes_its_filter(
    bank: BankView,
    snapshot: ParameterSnapshot,
    sample_rate: u64,
    block_len: usize,
)
    requires
        snapshot.band_count == 1,
    ensures
        ({
            let after = bank.synced(snapshot, sample_rate);
            let answer = design_of(snapshot.span().clamped(sample_rate), sample_rate, bank.order);
            let taken = !after.bands[0].rejected && answer is BandPass && answer.shortest_block()
                <= block_len;
            &&& after.bands.len() == 1
            &&& after.bands[0].design == answer
            &&& taken ==> route_of(after.bands, block_len) == Route::Single
            &&& !taken ==> route_of(after.bands, block_len) == Route::Bypass
        }),
{
    let after = bank.synced(snapshot, sample_rate);
    crate::bank::lemma_single_band_takes_window(bank, snapshot, sample_rate);
    lemma_single_band_route(after.bands, block_len);
    if after.bands[0].active() is PassThrough {
        assert(all_pass_through(after.bands));
    }
}

/// Where every band runs the identity, a block of any length bypasses the bank:
/// the output is the input.
pub proof fn lemma_idle_bank_bypasses(bands: Seq<FilterState>, block_len: usize)
    requires
        all_pass_through(bands),
    ensures
        route_of(bands, block_len) == Route::Bypass,
{
}

/// With the cutoffs equal or crossed, a block of any length bypasses the synced
/// bank, whatever the bank held before and whatever the band count and the
/// sample rate are.
pub proof fn lemma_degenerate_cutoffs_bypass(
    bank: BankView,
    snapshot: ParameterSnapshot,
    sample_rate: u64,
    block_len: usize,
)
    requires
        snapshot.low_cutoff >= snapshot.high_cutoff,
    ensures
        route_of(bank.synced(snapshot, sample_rate).bands, block_len) == Route::Bypass,
{
    let after = bank.synced(snapshot, sample_rate);
    assert forall|i: int| 0 <= i < after.bands.len() implies (#[trigger] after.bands[i]).active()
        is PassThrough by {
        crate::bank::lemma_degenerate_cutoffs_pass_through(bank, snapshot, sample_rate, i);
    }
}

/// An empty block is never filtered.
pub proof fn lemma_empty_block_bypasses(bands: Seq<FilterState>)
    ensures
        route_of(bands, 0) == Route::Bypass,
{
    if !all_pass_through(bands) {
        let i = choose|i: int| 0 <= i < bands.len() && !((#[trigger] bands[i]).active()
            is PassThrough);
        assert(bands[i].active().shortest_block() > 0);
    }
}

} // verus!
