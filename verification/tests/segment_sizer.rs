use zinder_ingest::bounds::{NonZeroU32, NonZeroU64};
use zinder_ingest::bulk_catchup::segment_sizer::{
    response_payload_bytes_per_block, ConsensusBranchId, NetworkUpgradeActivation,
    NetworkUpgradeActivations, SourceChainSegmentStats, SourceSegmentSizer,
};
use zinder_ingest::ids::{BlockHeight, Network};

fn nz32(amount: u32) -> NonZeroU32 {
    match NonZeroU32::new(amount) {
        Some(bound) => bound,
        None => panic!("invalid max segment blocks"),
    }
}

fn target_bytes() -> NonZeroU64 {
    match NonZeroU64::new(12 * 1024 * 1024) {
        Some(bound) => bound,
        None => panic!("invalid target bytes"),
    }
}

fn stats(response_payload_bytes: u64, connected_blocks: u32, split_count: u32) -> SourceChainSegmentStats {
    SourceChainSegmentStats { response_payload_bytes, connected_blocks, split_count }
}

fn sapling_at(height: u32) -> NetworkUpgradeActivations {
    NetworkUpgradeActivations {
        network: Network::ZcashRegtest,
        activations: vec![NetworkUpgradeActivation {
            branch_id: ConsensusBranchId(0x76b8_09bb),
            activation_height: BlockHeight::new(height),
            name: "Sapling".to_owned(),
        }],
    }
}

#[test]
fn source_segment_sizer_shrinks_after_response_split() {
    let mut sizer = SourceSegmentSizer::new(
        nz32(32),
        target_bytes(),
        NetworkUpgradeActivations::empty(Network::ZcashRegtest),
        BlockHeight::new(1),
    );

    sizer.record_segment(stats(20 * 1024 * 1024, 32, 1));

    assert_eq!(
        sizer.blocks_for_remaining_range(BlockHeight::new(33), BlockHeight::new(100)),
        NonZeroU32::new(16)
    );
}

#[test]
fn source_segment_sizer_resets_density_at_network_upgrade() {
    let mut sizer =
        SourceSegmentSizer::new(nz32(32), target_bytes(), sapling_at(5), BlockHeight::new(1));
    sizer.record_segment(stats(20 * 1024 * 1024, 32, 1));

    assert_eq!(
        sizer.blocks_for_remaining_range(BlockHeight::new(4), BlockHeight::new(100)),
        NonZeroU32::new(16)
    );
    assert_eq!(
        sizer.blocks_for_remaining_range(BlockHeight::new(5), BlockHeight::new(100)),
        NonZeroU32::new(32)
    );
}

#[test]
fn source_segment_sizer_uses_heaviest_density_sample() {
    let mut sizer = SourceSegmentSizer::new(
        nz32(32),
        target_bytes(),
        NetworkUpgradeActivations::empty(Network::ZcashRegtest),
        BlockHeight::new(1),
    );

    sizer.record_segment(stats(12 * 1024 * 1024, 12, 0));
    sizer.record_segment(stats(12 * 1024 * 1024, 4, 0));

    assert_eq!(
        sizer.blocks_for_remaining_range(BlockHeight::new(17), BlockHeight::new(100)),
        NonZeroU32::new(4)
    );
}

#[test]
fn segments_never_pass_the_end_of_the_range() {
    let mut sizer = SourceSegmentSizer::new(
        nz32(32),
        target_bytes(),
        NetworkUpgradeActivations::empty(Network::ZcashRegtest),
        BlockHeight::new(1),
    );
    assert_eq!(
        sizer.blocks_for_remaining_range(BlockHeight::new(99), BlockHeight::new(100)),
        NonZeroU32::new(2)
    );
    assert_eq!(
        sizer.blocks_for_remaining_range(BlockHeight::new(101), BlockHeight::new(100)),
        None
    );
}

#[test]
fn segments_grow_after_eight_successes() {
    let mut sizer = SourceSegmentSizer::new(
        nz32(32),
        target_bytes(),
        NetworkUpgradeActivations::empty(Network::ZcashRegtest),
        BlockHeight::new(1),
    );
    sizer.record_segment(stats(1_024, 32, 1));
    assert_eq!(sizer.current_blocks.get(), 16);
    let mut grown = false;
    let mut successes = 0;
    while successes < 8 {
        sizer.record_segment(stats(16, 16, 0));
        if sizer.current_blocks.get() > 16 {
            grown = true;
        }
        successes += 1;
    }
    assert!(grown);
    assert_eq!(sizer.current_blocks.get(), 20);
}

#[test]
fn density_is_the_rounded_up_share_of_a_block() {
    assert_eq!(response_payload_bytes_per_block(stats(10, 3, 0)), Some(4));
    assert_eq!(response_payload_bytes_per_block(stats(10, 0, 0)), None);
}

#[test]
fn upgrades_take_over_at_their_height() {
    let activations = sapling_at(5);
    assert_eq!(
        activations.consensus_branch_id_at(BlockHeight::new(4)),
        ConsensusBranchId(0)
    );
    assert_eq!(
        activations.consensus_branch_id_at(BlockHeight::new(5)),
        ConsensusBranchId(0x76b8_09bb)
    );
    assert_eq!(activations.activation_height_by_name("Sapling"), Some(BlockHeight::new(5)));
    assert_eq!(activations.activation_height_by_name("Canopy"), None);
}
