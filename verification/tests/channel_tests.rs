use satsconnect_core::channel_manager::ChannelConfig;
use satsconnect_core::channel_manager::ChannelManager;
use satsconnect_core::channel_manager::ChannelState;
use satsconnect_core::CoreError;

#[test]
fn test_create_channel() {
    let config = ChannelConfig::default();
    let mut manager = ChannelManager::new(config);

    let channel_id = manager.create_channel("peer123".to_string(), 1_000_000, 0).unwrap();
    assert!(!channel_id.is_empty());
    assert!(channel_id.starts_with("ch_"));

    let channel = manager.get_channel(&channel_id);
    assert!(channel.is_some());
    let channel = channel.unwrap();
    assert_eq!(channel.peer_id, "peer123");
    assert_eq!(channel.capacity_sats, 1_000_000);
    assert_eq!(channel.local_balance_sats, 0);
    assert_eq!(channel.remote_balance_sats, 1_000_000);
    assert_eq!(channel.state, ChannelState::Pending);
}

#[test]
fn test_channel_validation() {
    let config = ChannelConfig::default();
    let mut manager = ChannelManager::new(config);

    let result = manager.create_channel("peer123".to_string(), 50_000, 0);
    assert!(result.is_err());

    let result = manager.create_channel("peer123".to_string(), 20_000_000, 0);
    assert!(result.is_err());
}

#[test]
fn test_channel_size_boundaries() {
    let config = ChannelConfig::default();
    let mut manager = ChannelManager::new(config);
    assert!(manager.create_channel("p".to_string(), 100_000, 0).is_ok());
    assert!(manager.create_channel("p".to_string(), 10_000_000, 0).is_ok());
    assert_eq!(
        manager.create_channel("p".to_string(), 99_999, 0),
        Err(CoreError::Validation)
    );
    assert_eq!(
        manager.create_channel("p".to_string(), 10_000_001, 0),
        Err(CoreError::Validation)
    );
}

#[test]
fn test_max_channels_per_peer() {
    let config = ChannelConfig::default();
    let mut manager = ChannelManager::new(config);
    for _ in 0..5 {
        manager.create_channel("same_peer".to_string(), 1_000_000, 0).unwrap();
    }
    // The sixth channel to the same peer is refused; another peer is fine.
    assert_eq!(
        manager.create_channel("same_peer".to_string(), 1_000_000, 0),
        Err(CoreError::Validation)
    );
    assert!(manager.create_channel("other_peer".to_string(), 1_000_000, 0).is_ok());
}

#[test]
fn test_channel_stats() {
    let config = ChannelConfig::default();
    let mut manager = ChannelManager::new(config);

    manager.create_channel("peer1".to_string(), 1_000_000, 0).unwrap();
    manager.create_channel("peer2".to_string(), 2_000_000, 0).unwrap();

    let stats = manager.get_channel_stats();
    assert_eq!(stats.total_channels, 2);
    assert_eq!(stats.pending_channels, 2);
}

#[test]
fn test_channel_stats_idempotent() {
    let config = ChannelConfig::default();
    let mut manager = ChannelManager::new(config);
    manager.create_channel("peer1".to_string(), 1_000_000, 0).unwrap();
    let first = manager.get_channel_stats();
    let second = manager.get_channel_stats();
    assert_eq!(first, second);
}

#[test]
fn test_open_channel_aggregates() {
    let config = ChannelConfig::default();
    let mut manager = ChannelManager::new(config);
    let a = manager.create_channel("peer1".to_string(), 1_000_000, 0).unwrap();
    let b = manager.create_channel("peer2".to_string(), 2_000_000, 0).unwrap();
    manager.update_channel_state(&a, ChannelState::Open, 5).unwrap();
    manager.update_channel_balance(&a, 300_000, 700_000, 6).unwrap();

    // Only the open channel counts toward the aggregates.
    assert_eq!(manager.get_total_capacity(), 1_000_000);
    assert_eq!(manager.get_total_local_balance(), 300_000);
    assert_eq!(manager.get_total_remote_balance(), 700_000);

    manager.update_channel_state(&b, ChannelState::Open, 7).unwrap();
    assert_eq!(manager.get_total_capacity(), 3_000_000);

    let stats = manager.get_channel_stats();
    assert_eq!(stats.open_channels, 2);
    assert_eq!(stats.pending_channels, 0);
    assert_eq!(stats.total_capacity, 3_000_000);
}

#[test]
fn test_update_channel_state_unknown_id() {
    let mut manager = ChannelManager::new(ChannelConfig::default());
    assert_eq!(
        manager.update_channel_state("missing", ChannelState::Open, 1),
        Err(CoreError::NotFound)
    );
}

#[test]
fn test_close_channel() {
    let mut manager = ChannelManager::new(ChannelConfig::default());
    let id = manager.create_channel("peer".to_string(), 500_000, 0).unwrap();
    manager.close_channel(&id, 9).unwrap();
    let ch = manager.get_channel(&id).unwrap();
    assert_eq!(ch.state, ChannelState::Closing);
    assert_eq!(ch.updated_at, 9);
}

#[test]
fn test_get_channels_by_peer() {
    let mut manager = ChannelManager::new(ChannelConfig::default());
    manager.create_channel("alice".to_string(), 500_000, 0).unwrap();
    manager.create_channel("alice".to_string(), 600_000, 0).unwrap();
    manager.create_channel("bob".to_string(), 700_000, 0).unwrap();
    assert_eq!(manager.get_channels_by_peer("alice").len(), 2);
    assert_eq!(manager.get_channels_by_peer("bob").len(), 1);
    assert_eq!(manager.get_channels_by_peer("carol").len(), 0);
    assert_eq!(manager.get_all_channels().len(), 3);
}

#[test]
fn test_fresh_channel_ids_differ() {
    let mut manager = ChannelManager::new(ChannelConfig::default());
    let a = manager.create_channel("p1".to_string(), 500_000, 0).unwrap();
    let b = manager.create_channel("p2".to_string(), 500_000, 0).unwrap();
    assert_ne!(a, b);
    assert_eq!(a.chars().count(), 39);
}
