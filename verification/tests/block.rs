use starlight_vocoder::bank::{BandAction, FilterBank, FilterState};
use starlight_vocoder::block::{
    check_layout, route, BlockProcessor, DeclineReason, Route, MAX_CHANNELS,
};
use starlight_vocoder::designer::FilterDesign;
use starlight_vocoder::params::ParameterSnapshot;

const RATE_48K: u64 = 48_000_000;

fn synced_bank(order: usize, snapshot: ParameterSnapshot) -> FilterBank {
    let mut bank = FilterBank::new(order);
    let mut plan = Vec::new();
    bank.sync(&snapshot, RATE_48K, &mut plan);
    bank
}

fn states(bank: &FilterBank) -> Vec<FilterState> {
    (0..bank.len()).map(|i| bank.band(i).unwrap()).collect()
}

#[test]
fn mono_and_stereo_blocks_are_taken() {
    assert_eq!(MAX_CHANNELS, 2);
    assert_eq!(check_layout(&[512], 512), Ok(512));
    assert_eq!(check_layout(&[512, 512], 512), Ok(512));
    assert_eq!(check_layout(&[64, 64], 512), Ok(64));
    assert_eq!(check_layout(&[0], 512), Ok(0));
    assert_eq!(check_layout(&[0, 0], 0), Ok(0));
}

#[test]
fn unsupported_channel_count_is_declined() {
    assert_eq!(check_layout(&[], 512), Err(DeclineReason::UnsupportedChannelCount));
    assert_eq!(check_layout(&[64, 64, 64], 512), Err(DeclineReason::UnsupportedChannelCount));
    assert_eq!(check_layout(&[64; 8], 512), Err(DeclineReason::UnsupportedChannelCount));
}

#[test]
fn mismatched_channel_lengths_are_declined() {
    assert_eq!(check_layout(&[64, 65], 512), Err(DeclineReason::MismatchedChannelLengths));
    assert_eq!(check_layout(&[0, 1], 512), Err(DeclineReason::MismatchedChannelLengths));
}

#[test]
fn block_longer_than_the_buffers_is_declined() {
    assert_eq!(check_layout(&[513], 512), Err(DeclineReason::BlockTooLong));
    assert_eq!(check_layout(&[513, 513], 512), Err(DeclineReason::BlockTooLong));
    assert_eq!(check_layout(&[1], 0), Err(DeclineReason::BlockTooLong));
}

#[test]
fn first_reason_that_applies_is_given() {
    // Channel count before channel lengths.
    assert_eq!(check_layout(&[1, 2, 3], 512), Err(DeclineReason::UnsupportedChannelCount));
    // Channel count before block length.
    assert_eq!(check_layout(&[900, 900, 900], 512), Err(DeclineReason::UnsupportedChannelCount));
    // Channel lengths before block length.
    assert_eq!(check_layout(&[900, 5], 512), Err(DeclineReason::MismatchedChannelLengths));
    assert_eq!(check_layout(&[5, 900], 512), Err(DeclineReason::MismatchedChannelLengths));
}

#[test]
fn several_bands_are_summed() {
    let bank = synced_bank(2, ParameterSnapshot::default());
    assert_eq!(route(&bank, 512), Route::Sum);
    assert_eq!(route(&bank, 13), Route::Sum);
    assert_eq!(route(&bank, usize::MAX), Route::Sum);
}

#[test]
fn one_band_is_written_directly() {
    let snapshot = ParameterSnapshot { low_cutoff: 300_000, high_cutoff: 3_400_000, band_count: 1 };
    let bank = synced_bank(2, snapshot);
    assert_eq!(route(&bank, 512), Route::Single);
    assert_eq!(route(&bank, 13), Route::Single);
    let first_order = synced_bank(1, snapshot);
    assert_eq!(route(&first_order, 7), Route::Single);
}

#[test]
fn block_too_short_to_filter_bypasses() {
    let second_order = synced_bank(2, ParameterSnapshot::default());
    assert_eq!(route(&second_order, 12), Route::Bypass);
    assert_eq!(route(&second_order, 1), Route::Bypass);
    assert_eq!(route(&second_order, 0), Route::Bypass);
    let first_order = synced_bank(1, ParameterSnapshot::default());
    assert_eq!(route(&first_order, 6), Route::Bypass);
    assert_eq!(route(&first_order, 7), Route::Sum);
}

#[test]
fn bank_of_identities_bypasses() {
    let empty = FilterBank::new(2);
    assert_eq!(route(&empty, 512), Route::Bypass);

    for band_count in [1usize, 2, 20] {
        let equal = ParameterSnapshot {
            low_cutoff: 1_000_000,
            high_cutoff: 1_000_000,
            band_count,
        };
        let crossed = ParameterSnapshot {
            low_cutoff: 3_400_000,
            high_cutoff: 300_000,
            band_count,
        };
        for len in [0usize, 1, 13, 512, 48_000] {
            assert_eq!(route(&synced_bank(2, equal), len), Route::Bypass);
            assert_eq!(route(&synced_bank(2, crossed), len), Route::Bypass);
        }
    }
}

#[test]
fn rejected_bands_count_as_identities() {
    let snapshot = ParameterSnapshot { low_cutoff: 1_000, high_cutoff: 9_000, band_count: 2 };
    let mut bank = synced_bank(1, snapshot);
    assert_eq!(route(&bank, 64), Route::Sum);
    bank.reject(0);
    // One band still filters: the sum stays, and the refused band gives the input.
    assert_eq!(route(&bank, 64), Route::Sum);
    bank.reject(1);
    assert_eq!(route(&bank, 64), Route::Bypass);

    let single = ParameterSnapshot { low_cutoff: 1_000, high_cutoff: 9_000, band_count: 1 };
    let mut one = synced_bank(1, single);
    assert_eq!(route(&one, 64), Route::Single);
    one.reject(0);
    assert_eq!(route(&one, 64), Route::Bypass);
}

#[test]
fn new_processor_has_an_empty_bank() {
    let processor = BlockProcessor::new(2, 512);
    assert_eq!(processor.max_block_len(), 512);
    assert!(processor.is_well_formed());
    assert_eq!(processor.bank().len(), 0);
    assert_eq!(processor.bank().order(), 2);
    assert_eq!(processor.route(512), Route::Bypass);
}

#[test]
fn activation_sets_the_block_length_and_keeps_the_bank() {
    let mut processor = BlockProcessor::new(2, 64);
    let mut plan = Vec::new();
    let snapshot = ParameterSnapshot::default();
    assert_eq!(
        processor.begin_block(&snapshot, RATE_48K, &[128, 128], &mut plan),
        Err(DeclineReason::BlockTooLong)
    );
    processor.begin_block(&snapshot, RATE_48K, &[64, 64], &mut plan).unwrap();
    let held = states(processor.bank());
    processor.activate(128);
    assert_eq!(processor.max_block_len(), 128);
    assert_eq!(states(processor.bank()), held);
    assert_eq!(processor.begin_block(&snapshot, RATE_48K, &[128, 128], &mut plan), Ok(Route::Sum));
    assert_eq!(plan, vec![BandAction::Keep; 20]);
}

#[test]
fn begin_block_syncs_and_routes() {
    let mut processor = BlockProcessor::new(2, 512);
    let mut plan = Vec::new();
    let snapshot = ParameterSnapshot { low_cutoff: 300_000, high_cutoff: 3_400_000, band_count: 1 };
    let design =
        FilterDesign::BandPass { low: 300_000, high: 3_400_000, sample_rate: RATE_48K, order: 2 };
    assert_eq!(processor.begin_block(&snapshot, RATE_48K, &[512, 512], &mut plan), Ok(Route::Single));
    assert_eq!(plan, vec![BandAction::Redesign(design)]);
    assert_eq!(
        states(processor.bank()),
        vec![FilterState { design, rejected: false }]
    );

    assert_eq!(processor.begin_block(&snapshot, RATE_48K, &[512, 512], &mut plan), Ok(Route::Single));
    assert_eq!(plan, vec![BandAction::Keep]);

    // A short block is taken and bypassed; the bank is synced all the same.
    let two = ParameterSnapshot { low_cutoff: 300_000, high_cutoff: 3_400_000, band_count: 2 };
    assert_eq!(processor.begin_block(&two, RATE_48K, &[4], &mut plan), Ok(Route::Bypass));
    assert_eq!(processor.bank().len(), 2);
    assert_eq!(plan.len(), 2);
    assert_eq!(processor.begin_block(&two, RATE_48K, &[64], &mut plan), Ok(Route::Sum));
    assert_eq!(plan, vec![BandAction::Keep; 2]);
}

#[test]
fn declined_block_leaves_the_bank_alone() {
    let mut processor = BlockProcessor::new(2, 512);
    let mut plan = Vec::new();
    processor.begin_block(&ParameterSnapshot::default(), RATE_48K, &[64, 64], &mut plan).unwrap();
    let held = states(processor.bank());

    let other = ParameterSnapshot { low_cutoff: 1_000_000, high_cutoff: 2_000_000, band_count: 3 };
    let cases: [(&[usize], DeclineReason); 4] = [
        (&[], DeclineReason::UnsupportedChannelCount),
        (&[64, 64, 64], DeclineReason::UnsupportedChannelCount),
        (&[64, 63], DeclineReason::MismatchedChannelLengths),
        (&[513, 513], DeclineReason::BlockTooLong),
    ];
    for (lens, reason) in cases {
        plan.clear();
        assert_eq!(processor.begin_block(&other, 44_100_000, lens, &mut plan), Err(reason));
        assert_eq!(states(processor.bank()), held);
        assert_eq!(processor.bank().sample_rate(), RATE_48K);
        assert_eq!(plan, vec![BandAction::Keep; 20]);
    }
}

#[test]
fn degenerate_cutoffs_bypass_every_block() {
    let mut processor = BlockProcessor::new(2, 48_000);
    let mut plan = Vec::new();
    for (low, high) in [(1_000_000u64, 1_000_000u64), (3_400_000, 300_000)] {
        for band_count in [1usize, 20] {
            let snapshot = ParameterSnapshot { low_cutoff: low, high_cutoff: high, band_count };
            for len in [0usize, 64, 48_000] {
                assert_eq!(
                    processor.begin_block(&snapshot, RATE_48K, &[len, len], &mut plan),
                    Ok(Route::Bypass)
                );
            }
        }
    }
}

#[test]
fn rejecting_through_the_processor_changes_the_route() {
    let mut processor = BlockProcessor::new(1, 512);
    let mut plan = Vec::new();
    let snapshot = ParameterSnapshot { low_cutoff: 1_000, high_cutoff: 9_000, band_count: 1 };
    assert_eq!(processor.begin_block(&snapshot, RATE_48K, &[64], &mut plan), Ok(Route::Single));
    assert!(processor.reject(0));
    assert!(!processor.reject(1));
    assert_eq!(processor.route(64), Route::Bypass);
    assert_eq!(processor.begin_block(&snapshot, RATE_48K, &[64], &mut plan), Ok(Route::Bypass));
    assert_eq!(plan, vec![BandAction::Keep]);
}

#[test]
fn block_size_does_not_change_the_designs() {
    let snapshot = ParameterSnapshot::default();
    let mut small = BlockProcessor::new(2, 512);
    let mut large = BlockProcessor::new(2, 512);
    let mut plan = Vec::new();
    // Two seconds at 48 kHz, in blocks of 64 and of 512 samples.
    for block in 0..1_500usize {
        assert_eq!(small.begin_block(&snapshot, RATE_48K, &[64, 64], &mut plan), Ok(Route::Sum));
        if block > 0 {
            assert!(plan.iter().all(|action| *action == BandAction::Keep));
        }
    }
    for block in 0..188usize {
        let len = if block < 187 { 512 } else { 256 };
        assert_eq!(large.begin_block(&snapshot, RATE_48K, &[len, len], &mut plan), Ok(Route::Sum));
        if block > 0 {
            assert!(plan.iter().all(|action| *action == BandAction::Keep));
        }
    }
    assert_eq!(states(small.bank()), states(large.bank()));
}
