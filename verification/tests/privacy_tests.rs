use satsconnect_core::mixing_service::MixingParticipant;
use satsconnect_core::mixing_service::MixingService;
use satsconnect_core::mixing_service::MixingStatus;
use satsconnect_core::mixing_service::MixingStrategy;
use satsconnect_core::privacy_engine::PrivacyEngine;
use satsconnect_core::privacy_engine::PrivacyFeature;
use satsconnect_core::privacy_engine::PrivacyLevel;
use satsconnect_core::CoreError;

#[test]
fn test_privacy_engine_creation() {
    let engine = PrivacyEngine::new();
    assert_eq!(engine.get_privacy_level(), &PrivacyLevel::Medium);
}

#[test]
fn test_privacy_level_settings() {
    let settings = PrivacyEngine::get_recommended_settings(PrivacyLevel::High);
    assert!(settings.enable_tor);
    assert!(settings.enable_coinjoin);
    assert!(settings.clear_metadata);
    assert!(settings.anonymize_transactions);
}

#[test]
fn test_privacy_score_calculation() {
    let mut engine = PrivacyEngine::new();
    engine.enable_feature(PrivacyFeature::Tor);
    engine.enable_feature(PrivacyFeature::CoinJoin);
    engine.enable_feature(PrivacyFeature::ClearMetadata);

    let score = engine.get_privacy_score();
    assert!(score >= 55);
}

#[test]
fn test_privacy_score_exact_values() {
    let mut engine = PrivacyEngine::with_settings(PrivacyEngine::get_recommended_settings(
        PrivacyLevel::Low,
    ));
    assert_eq!(engine.get_privacy_score(), 0);
    engine.enable_feature(PrivacyFeature::Tor);
    assert_eq!(engine.get_privacy_score(), 20);
    engine.enable_feature(PrivacyFeature::CoinJoin);
    assert_eq!(engine.get_privacy_score(), 45);
    // All seven features together would score 120, stopped at 100.
    let maxed = PrivacyEngine::with_settings(PrivacyEngine::get_recommended_settings(
        PrivacyLevel::Maximum,
    ));
    assert_eq!(maxed.get_privacy_score(), 100);
}

#[test]
fn test_feature_toggles() {
    let mut engine = PrivacyEngine::new();
    assert!(engine.is_feature_enabled(PrivacyFeature::Tor));
    assert!(!engine.is_feature_enabled(PrivacyFeature::Mixing));
    engine.enable_feature(PrivacyFeature::Mixing);
    assert!(engine.is_feature_enabled(PrivacyFeature::Mixing));
    engine.disable_feature(PrivacyFeature::Mixing);
    assert!(!engine.is_feature_enabled(PrivacyFeature::Mixing));

    engine.set_privacy_level(PrivacyLevel::High);
    assert_eq!(engine.get_privacy_level(), &PrivacyLevel::High);
    assert_eq!(engine.get_settings().level, PrivacyLevel::High);
}

#[test]
fn test_privacy_recommendations() {
    let low = PrivacyEngine::with_settings(PrivacyEngine::get_recommended_settings(
        PrivacyLevel::Low,
    ));
    let recs = low.get_privacy_recommendations();
    // Score zero: Tor, CoinJoin and anonymization are suggested, and
    // metadata clearing is off, so four suggestions in all.
    assert_eq!(recs.len(), 4);
    assert_eq!(recs[0].feature, PrivacyFeature::Tor);

    let maxed = PrivacyEngine::with_settings(PrivacyEngine::get_recommended_settings(
        PrivacyLevel::Maximum,
    ));
    assert!(maxed.get_privacy_recommendations().is_empty());
}

#[test]
fn test_transaction_delay() {
    let mut settings = PrivacyEngine::get_recommended_settings(PrivacyLevel::High);
    settings.transaction_delay_min = 60;
    settings.transaction_delay_max = 300;
    let engine = PrivacyEngine::with_settings(settings);
    let delay = engine.calculate_transaction_delay(1234);
    assert!((60..300).contains(&delay));

    let low = PrivacyEngine::with_settings(PrivacyEngine::get_recommended_settings(
        PrivacyLevel::Low,
    ));
    assert_eq!(low.calculate_transaction_delay(1234), 0);
}

#[test]
fn test_mixing_service_creation() {
    let service = MixingService::new();
    assert_eq!(service.get_active_rounds().len(), 0);
    assert_eq!(service.get_completed_rounds().len(), 0);
}

#[test]
fn test_start_mixing_round() {
    let mut service = MixingService::new();
    let round_id = service.start_mixing_round(7).unwrap();

    assert!(service.get_round(&round_id).is_some());
    assert_eq!(
        service.get_round(&round_id).unwrap().status,
        MixingStatus::Waiting
    );
    assert_eq!(service.get_round(&round_id).unwrap().created_at, 7);
    assert!(round_id.starts_with("round_"));
}

#[test]
fn test_calculate_mixing_fee() {
    let service = MixingService::new();
    let fee = service.calculate_mixing_fee(1000000);
    assert!(fee > 0);
}

#[test]
fn test_mixing_fee_exact_values() {
    // CoinJoin charges one part per thousand; TumbleBit five.
    let coinjoin = MixingService::new();
    assert_eq!(coinjoin.calculate_mixing_fee(1_000_000), 1_000);
    assert_eq!(coinjoin.calculate_mixing_fee(999), 0);
    let tumblebit = MixingService::with_config(MixingStrategy::TumbleBit, 3, 10);
    assert_eq!(tumblebit.calculate_mixing_fee(1_000_000), 5_000);
}

#[test]
fn test_get_mixing_stats() {
    let service = MixingService::new();
    let stats = service.get_mixing_stats();
    assert_eq!(stats.total_rounds, 0);
    assert_eq!(stats.completed_rounds, 0);
}

#[test]
fn test_cancel_round() {
    let mut service = MixingService::new();
    let round_id = service.start_mixing_round(0).unwrap();
    service.cancel_round(&round_id).unwrap();
    assert_eq!(
        service.get_round(&round_id).unwrap().status,
        MixingStatus::Cancelled
    );
    // A cancelled round cannot be cancelled again, and unknown rounds are
    // reported as such.
    assert_eq!(service.cancel_round(&round_id), Err(CoreError::Validation));
    assert_eq!(service.cancel_round("nope"), Err(CoreError::NotFound));
    // The cancelled round no longer counts as active.
    assert_eq!(service.get_active_rounds().len(), 0);
    assert_eq!(service.get_mixing_stats().total_rounds, 1);
}

#[test]
fn test_estimate_mixing_time() {
    let mut service = MixingService::new();
    let round_id = service.start_mixing_round(0).unwrap();
    // CoinJoin takes five minutes plus a minute for each of the three
    // missing participants.
    assert_eq!(service.estimate_mixing_time(&round_id), Some(480));
    assert_eq!(service.estimate_mixing_time("nope"), None);
}

#[test]
fn test_join_mixing_round() {
    let mut service = MixingService::with_config(MixingStrategy::CoinJoin, 2, 5);
    let round_id = service.start_mixing_round(0).unwrap();

    let participant = MixingParticipant {
        participant_id: "participant_1".to_string(),
        input_amount: 100000,
        output_address: "output_address_1".to_string(),
        anonymity_set: 0,
        joined_at: 1234567890,
    };

    let result = service.join_round(&round_id, participant);
    assert!(result.is_ok());
}

#[test]
fn test_join_round_reaching_quorum_executes() {
    let mut service = MixingService::with_config(MixingStrategy::CoinJoin, 2, 5);
    let round_id = service.start_mixing_round(0).unwrap();
    let p = |id: &str| MixingParticipant {
        participant_id: id.to_string(),
        input_amount: 1000,
        output_address: format!("addr_{id}"),
        anonymity_set: 0,
        joined_at: 5,
    };
    service.join_round(&round_id, p("a")).unwrap();
    let second = service.join_round(&round_id, p("b"));
    let round = service.get_round(&round_id).unwrap();
    assert_eq!(round.total_amount, 2000);
    assert_eq!(round.participants.len(), 2);
    if second.is_ok() {
        assert_eq!(round.status, MixingStatus::Completed);
        assert!(round.participants.iter().all(|q| q.anonymity_set == 2));
    } else {
        assert_eq!(round.status, MixingStatus::Failed);
    }
    // Either way the round stopped accepting participants.
    assert!(service.join_round(&round_id, p("c")).is_err());
}
