use satsconnect_core::channel_rebalancer::ChannelInfo;
use satsconnect_core::channel_rebalancer::ChannelRebalancer;
use satsconnect_core::channel_rebalancer::RebalanceStatus;

fn channel(id: &str, local: u64, remote: u64, capacity: u64, active: bool) -> ChannelInfo {
    ChannelInfo {
        channel_id: id.to_string(),
        local_balance: local,
        remote_balance: remote,
        capacity,
        is_active: active,
        last_rebalance: None,
        rebalance_count: 0,
    }
}

#[test]
fn test_balance_ratio_calculation() {
    let rebalancer = ChannelRebalancer::new();

    let channel = ChannelInfo {
        channel_id: "test".to_string(),
        local_balance: 100000,
        remote_balance: 900000,
        capacity: 1000000,
        is_active: true,
        last_rebalance: None,
        rebalance_count: 0,
    };

    let ratio = rebalancer.calculate_balance_ratio(&channel);
    assert!(ratio > 0);
}

#[test]
fn test_balance_ratio_exact() {
    let rebalancer = ChannelRebalancer::new();
    // Ideal split 500k, local 100k: the distance is 400k, eighty percent of
    // the ideal, which is 800000 parts per million.
    let ch = channel("c", 100_000, 900_000, 1_000_000, true);
    assert_eq!(rebalancer.calculate_balance_ratio(&ch), 800_000);
    // A fully one-sided channel sits at the full million.
    let ch2 = channel("d", 1_000_000, 0, 1_000_000, true);
    assert_eq!(rebalancer.calculate_balance_ratio(&ch2), 1_000_000);
    // A channel without capacity counts as balanced.
    let ch3 = channel("e", 0, 0, 0, true);
    assert_eq!(rebalancer.calculate_balance_ratio(&ch3), 0);
}

#[test]
fn test_rebalance_scenario() {
    // A fully imbalanced channel and a counter-channel with enough deficit:
    // the scan emits one pending operation moving eighty percent of the
    // excess.
    let mut rebalancer = ChannelRebalancer::new();
    rebalancer.update_channel(channel("source", 1_000_000, 0, 1_000_000, true)).unwrap();
    rebalancer.update_channel(channel("target", 0, 1_000_000, 1_000_000, true)).unwrap();

    let ops = rebalancer.check_rebalancing_needed(10).unwrap();
    // Only the overfull channel has a partner able to absorb its move; the
    // underfull one finds no channel with a matching deficit.
    assert_eq!(ops.len(), 1);
    let op = &ops[0];
    assert_eq!(op.from_channel, "source");
    assert_eq!(op.to_channel, "target");
    assert_eq!(op.amount, 400_000);
    assert_eq!(op.status, RebalanceStatus::Pending);
    assert_eq!(op.created_at, 10);
    assert!(op.completed_at.is_none());
}

#[test]
fn test_rebalance_amount_out_of_bounds_is_skipped() {
    let mut rebalancer = ChannelRebalancer::new();
    // The excess is 4000 sats, so the move of 3200 sats sits under the
    // 10000-sat floor and no operation is proposed, even though a partner
    // exists.
    rebalancer.update_channel(channel("small", 12_000, 4_000, 16_000, true)).unwrap();
    rebalancer.update_channel(channel("sink", 0, 16_000, 16_000, true)).unwrap();
    let ops = rebalancer.check_rebalancing_needed(0).unwrap();
    assert!(ops.iter().all(|op| op.from_channel != "small"));
}

#[test]
fn test_inactive_channels_are_ignored() {
    let mut rebalancer = ChannelRebalancer::new();
    rebalancer.update_channel(channel("off", 1_000_000, 0, 1_000_000, false)).unwrap();
    rebalancer.update_channel(channel("sink", 0, 1_000_000, 1_000_000, true)).unwrap();
    let ops = rebalancer.check_rebalancing_needed(0).unwrap();
    assert!(ops.iter().all(|op| op.from_channel != "off"));
}

#[test]
fn test_execute_rebalance_preserves_capacity_split() {
    let mut rebalancer = ChannelRebalancer::new();
    rebalancer.update_channel(channel("source", 1_000_000, 0, 1_000_000, true)).unwrap();
    rebalancer.update_channel(channel("target", 0, 1_000_000, 1_000_000, true)).unwrap();

    let mut ops = rebalancer.check_rebalancing_needed(10).unwrap();
    let op = &mut ops[0];
    let moved = op.amount;
    let from = op.from_channel.clone();
    let to = op.to_channel.clone();

    let done = rebalancer.execute_rebalance(op, true, 20).unwrap();
    assert!(done);
    assert_eq!(moved, 400_000);
    assert_ne!(from, to);
    assert_eq!(op.status, RebalanceStatus::Completed);
    assert_eq!(op.completed_at, Some(20));

    // The moved amount left the source's local side and arrived on the
    // target's, with each remote side taking up the rest of its capacity:
    // both channels now sit 100000 sats from the ideal split, which is a
    // ratio of 200000 parts per million each.
    let stats = rebalancer.get_rebalancing_stats().unwrap();
    assert_eq!(stats.total_rebalances, 1);
    assert_eq!(stats.avg_balance_ratio_ppm, 200_000);
    assert_eq!(stats.imbalanced_channels, 2);
}

#[test]
fn test_failed_rebalance_changes_nothing() {
    let mut rebalancer = ChannelRebalancer::new();
    rebalancer.update_channel(channel("source", 1_000_000, 0, 1_000_000, true)).unwrap();
    rebalancer.update_channel(channel("target", 0, 1_000_000, 1_000_000, true)).unwrap();
    let mut ops = rebalancer.check_rebalancing_needed(10).unwrap();
    let op = &mut ops[0];

    let done = rebalancer.execute_rebalance(op, false, 20).unwrap();
    assert!(!done);
    assert_eq!(op.status, RebalanceStatus::Failed);
    assert_eq!(op.completed_at, None);
    let stats = rebalancer.get_rebalancing_stats().unwrap();
    assert_eq!(stats.total_rebalances, 0);
    // Both channels are still fully imbalanced.
    assert_eq!(stats.imbalanced_channels, 2);
}

#[test]
fn test_rebalancing_stats() {
    let mut rebalancer = ChannelRebalancer::new();
    rebalancer.update_channel(channel("balanced", 500_000, 500_000, 1_000_000, true)).unwrap();
    rebalancer.update_channel(channel("skewed", 1_000_000, 0, 1_000_000, true)).unwrap();
    rebalancer.update_channel(channel("off", 0, 0, 0, false)).unwrap();
    let stats = rebalancer.get_rebalancing_stats().unwrap();
    assert_eq!(stats.total_channels, 3);
    assert_eq!(stats.active_channels, 2);
    assert_eq!(stats.imbalanced_channels, 1);
    assert_eq!(stats.rebalance_threshold_ppm, 100_000);
    // The two active ratios are 0 and 1000000 parts per million.
    assert_eq!(stats.avg_balance_ratio_ppm, 500_000);
}
