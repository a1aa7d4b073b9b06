//! Privacy engine: per-user privacy levels, feature toggles, a privacy
//! score, and recommendations derived from it.

use vstd::prelude::*;

verus! {

/// Privacy levels, from basic to strongest protection.
#[derive(Debug, Clone, Copy, PartialEq, Eq, Structural)]
pub enum PrivacyLevel {
    Low,
    Medium,
    High,
    Maximum,
}

/// The privacy configuration in force.
#[derive(Debug, Clone, Copy, PartialEq, Eq, Structural)]
pub struct PrivacySettings {
    pub level: PrivacyLevel,
    pub enable_tor: bool,
    pub enable_coinjoin: bool,
    pub enable_mixing: bool,
    pub clear_metadata: bool,
    pub anonymize_transactions: bool,
    pub use_privacy_coins: bool,
    pub delay_transactions: bool,
    pub transaction_delay_min: u64,
    pub transaction_delay_max: u64,
}

impl Default for PrivacySettings {
    fn default() -> (r: Self)
        ensures
            r == default_settings(),
    {
        PrivacySettings {
            level: PrivacyLevel::Medium,
            enable_tor: true,
            enable_coinjoin: false,
            enable_mixing: false,
            clear_metadata: true,
            anonymize_transactions: false,
            use_privacy_coins: false,
            delay_transactions: false,
            transaction_delay_min: 0,
            transaction_delay_max: 0,
        }
    }
}

/// The settings a fresh engine starts from.
pub open spec fn default_settings() -> PrivacySettings {
    PrivacySettings {
        level: PrivacyLevel::Medium,
        enable_tor: true,
        enable_coinjoin: false,
        enable_mixing: false,
        clear_metadata: true,
        anonymize_transactions: false,
        use_privacy_coins: false,
        delay_transactions: false,
        transaction_delay_min: 0,
        transaction_delay_max: 0,
    }
}

/// Individually switchable privacy features.
#[derive(Debug, Clone, Copy, PartialEq, Eq, Structural)]
pub enum PrivacyFeature {
    Tor,
    CoinJoin,
    Mixing,
    ClearMetadata,
    AnonymizeTransactions,
    UsePrivacyCoins,
    DelayTransactions,
}

/// Priority of a recommendation.
#[derive(Debug, Clone, Copy, PartialEq, Eq, Structural)]
pub enum Priority {
    Low,
    Medium,
    High,
}

/// A suggested feature to enable.
#[derive(Debug)]
pub struct PrivacyRecommendation {
    pub feature: PrivacyFeature,
    pub priority: Priority,
    pub description: String,
}

/// A transaction as the privacy pipeline sees it.
#[derive(Debug)]
pub struct TransactionData {
    pub amount: u64,
    pub destination: String,
    pub metadata: Vec<(String, String)>,
    pub timestamp: u64,
}

/// Whether `feature` is switched on in `s`.
pub open spec fn feature_enabled(s: PrivacySettings, feature: PrivacyFeature) -> bool {
    match feature {
        PrivacyFeature::Tor => s.enable_tor,
        PrivacyFeature::CoinJoin => s.enable_coinjoin,
        PrivacyFeature::Mixing => s.enable_mixing,
        PrivacyFeature::ClearMetadata => s.clear_metadata,
        PrivacyFeature::AnonymizeTransactions => s.anonymize_transactions,
        PrivacyFeature::UsePrivacyCoins => s.use_privacy_coins,
        PrivacyFeature::DelayTransactions => s.delay_transactions,
    }
}

/// `s` with `feature` switched to `on`.
pub open spec fn with_feature(s: PrivacySettings, feature: PrivacyFeature, on: bool) -> PrivacySettings {
    match feature {
        PrivacyFeature::Tor => PrivacySettings { enable_tor: on, ..s },
        PrivacyFeature::CoinJoin => PrivacySettings { enable_coinjoin: on, ..s },
        PrivacyFeature::Mixing => PrivacySettings { enable_mixing: on, ..s },
        PrivacyFeature::ClearMetadata => PrivacySettings { clear_metadata: on, ..s },
        PrivacyFeature::AnonymizeTransactions => PrivacySettings {
            anonymize_transactions: on,
            ..s
        },
        PrivacyFeature::UsePrivacyCoins => PrivacySettings { use_privacy_coins: on, ..s },
        PrivacyFeature::DelayTransactions => PrivacySettings { delay_transactions: on, ..s },
    }
}

/// The privacy score of a configuration: a weighted sum of its enabled
/// features, stopped at one hundred.
pub open spec fn score_of(s: PrivacySettings) -> int {
    let raw = (if s.enable_tor { 20int } else { 0int }) + (if s.enable_coinjoin {
        25int
    } else {
        0int
    }) + (if s.enable_mixing { 25int } else { 0int }) + (if s.clear_metadata {
        10int
    } else {
        0int
    }) + (if s.anonymize_transactions { 15int } else { 0int }) + (if s.use_privacy_coins {
        20int
    } else {
        0int
    }) + (if s.delay_transactions { 5int } else { 0int });
    if raw > 100 {
        100
    } else {
        raw
    }
}

/// The features a configuration should add, worst gaps first: Tor below a
/// score of thirty, CoinJoin below fifty, anonymization below seventy, and
/// metadata clearing whenever it is off.
pub open spec fn recommended_features(s: PrivacySettings) -> Seq<(PrivacyFeature, Priority)> {
    let base = Seq::<(PrivacyFeature, Priority)>::empty();
    let r1 = if score_of(s) < 30 {
        base.push((PrivacyFeature::Tor, Priority::High))
    } else {
        base
    };
    let r2 = if score_of(s) < 50 {
        r1.push((PrivacyFeature::CoinJoin, Priority::Medium))
    } else {
        r1
    };
    let r3 = if score_of(s) < 70 {
        r2.push((PrivacyFeature::AnonymizeTransactions, Priority::Medium))
    } else {
        r2
    };
    if !s.clear_metadata {
        r3.push((PrivacyFeature::ClearMetadata, Priority::Low))
    } else {
        r3
    }
}

/// Manages a user's privacy configuration.
#[derive(Debug)]
pub struct PrivacyEngine {
    settings: PrivacySettings,
    privacy_level: PrivacyLevel,
    metadata: Vec<(String, String)>,
}

impl PrivacyEngine {
    /// The engine's level mirrors its settings' level.
    pub closed spec fn wf(self) -> bool {
        self.privacy_level == self.settings.level
    }

    /// The configuration in force.
    pub closed spec fn spec_settings(self) -> PrivacySettings {
        self.settings
    }

    /// The level in force.
    pub closed spec fn spec_level(self) -> PrivacyLevel {
        self.privacy_level
    }

    pub fn new() -> (r: Self)
        ensures
            r.wf(),
            r.spec_settings() == default_settings(),
            r.spec_level() == PrivacyLevel::Medium,
    {
        PrivacyEngine {
            settings: PrivacySettings::default(),
            privacy_level: PrivacyLevel::Medium,
            metadata: Vec::new(),
        }
    }

    /// An engine over the given settings; their level becomes the engine's.
    pub fn with_settings(settings: PrivacySettings) -> (r: Self)
        ensures
            r.wf(),
            r.spec_settings() == settings,
            r.spec_level() == settings.level,
    {
        PrivacyEngine { privacy_level: settings.level, settings, metadata: Vec::new() }
    }

    /// The level in force.
    pub fn get_privacy_level(&self) -> (r: &PrivacyLevel)
        ensures
            *r == self.spec_level(),
    {
        &self.privacy_level
    }

    /// Move to a level; the settings' level follows.
    pub fn set_privacy_level(&mut self, level: PrivacyLevel)
        requires
            old(self).wf(),
        ensures
            final(self).wf(),
            final(self).spec_level() == level,
            final(self).spec_settings() == (PrivacySettings { level: level, ..old(self).spec_settings() }),
    {
        self.privacy_level = level;
        self.settings.level = level;
    }

    /// The configuration in force.
    pub fn get_settings(&self) -> (r: &PrivacySettings)
        ensures
            *r == self.spec_settings(),
    {
        &self.settings
    }

    /// Replace the configuration; the engine's level follows it.
    pub fn update_settings(&mut self, settings: PrivacySettings)
        requires
            old(self).wf(),
        ensures
            final(self).wf(),
            final(self).spec_settings() == settings,
            final(self).spec_level() == settings.level,
    {
        self.privacy_level = settings.level;
        self.settings = settings;
    }

    /// Whether one feature is switched on.
    pub fn is_feature_enabled(&self, feature: PrivacyFeature) -> (r: bool)
        ensures
            r == feature_enabled(self.spec_settings(), feature),
    {
        match feature {
            PrivacyFeature::Tor => self.settings.enable_tor,
            PrivacyFeature::CoinJoin => self.settings.enable_coinjoin,
            PrivacyFeature::Mixing => self.settings.enable_mixing,
            PrivacyFeature::ClearMetadata => self.settings.clear_metadata,
            PrivacyFeature::AnonymizeTransactions => self.settings.anonymize_transactions,
            PrivacyFeature::UsePrivacyCoins => self.settings.use_privacy_coins,
            PrivacyFeature::DelayTransactions => self.settings.delay_transactions,
        }
    }

    /// Switch one feature on.
    pub fn enable_feature(&mut self, feature: PrivacyFeature)
        requires
            old(self).wf(),
        ensures
            final(self).wf(),
            final(self).spec_settings() == with_feature(old(self).spec_settings(), feature, true),
            final(self).spec_level() == old(self).spec_level(),
    {
        match feature {
            PrivacyFeature::Tor => self.settings.enable_tor = true,
            PrivacyFeature::CoinJoin => self.settings.enable_coinjoin = true,
            PrivacyFeature::Mixing => self.settings.enable_mixing = true,
            PrivacyFeature::ClearMetadata => self.settings.clear_metadata = true,
            PrivacyFeature::AnonymizeTransactions => self.settings.anonymize_transactions = true,
            PrivacyFeature::UsePrivacyCoins => self.settings.use_privacy_coins = true,
            PrivacyFeature::DelayTransactions => self.settings.delay_transactions = true,
        }
    }

    /// Switch one feature off.
    pub fn disable_feature(&mut self, feature: PrivacyFeature)
        requires
            old(self).wf(),
        ensures
            final(self).wf(),
            final(self).spec_settings() == with_feature(old(self).spec_settings(), feature, false),
            final(self).spec_level() == old(self).spec_level(),
    {
        match feature {
            PrivacyFeature::Tor => self.settings.enable_tor = false,
            PrivacyFeature::CoinJoin => self.settings.enable_coinjoin = false,
            PrivacyFeature::Mixing => self.settings.enable_mixing = false,
            PrivacyFeature::ClearMetadata => self.settings.clear_metadata = false,
            PrivacyFeature::AnonymizeTransactions => self.settings.anonymize_transactions = false,
            PrivacyFeature::UsePrivacyCoins => self.settings.use_privacy_coins = false,
            PrivacyFeature::DelayTransactions => self.settings.delay_transactions = false,
        }
    }

    /// The configuration recommended for a level.
    pub fn get_recommended_settings(level: PrivacyLevel) -> (r: PrivacySettings)
        ensures
            r == spec_recommended_settings(level),
    {
        match level {
            PrivacyLevel::Low => PrivacySettings {
                level: PrivacyLevel::Low,
                enable_tor: false,
                enable_coinjoin: false,
                enable_mixing: false,
                clear_metadata: false,
                anonymize_transactions: false,
                use_privacy_coins: false,
                delay_transactions: false,
                transaction_delay_min: 0,
                transaction_delay_max: 0,
            },
            PrivacyLevel::Medium => PrivacySettings {
                level: PrivacyLevel::Medium,
                enable_tor: true,
                enable_coinjoin: false,
                enable_mixing: false,
                clear_metadata: true,
                anonymize_transactions: false,
                use_privacy_coins: false,
                delay_transactions: false,
                transaction_delay_min: 0,
                transaction_delay_max: 0,
            },
            PrivacyLevel::High => PrivacySettings {
                level: PrivacyLevel::High,
                enable_tor: true,
                enable_coinjoin: true,
                enable_mixing: false,
                clear_metadata: true,
                anonymize_transactions: true,
                use_privacy_coins: false,
                delay_transactions: true,
                transaction_delay_min: 60,
                transaction_delay_max: 300,
            },
            PrivacyLevel::Maximum => PrivacySettings {
                level: PrivacyLevel::Maximum,
                enable_tor: true,
                enable_coinjoin: true,
                enable_mixing: true,
                clear_metadata: true,
                anonymize_transactions: true,
                use_privacy_coins: true,
                delay_transactions: true,
                transaction_delay_min: 300,
                transaction_delay_max: 1800,
            },
        }
    }

    /// The privacy score of the configuration in force.
    pub fn get_privacy_score(&self) -> (r: u8)
        ensures
            r as int == score_of(self.spec_settings()),
    {
        let mut score: u8 = 0;
        if self.settings.enable_tor {
            score += 20;
        }
        if self.settings.enable_coinjoin {
            score += 25;
        }
        if self.settings.enable_mixing {
            score += 25;
        }
        if self.settings.clear_metadata {
            score += 10;
        }
        if self.settings.anonymize_transactions {
            score += 15;
        }
        if self.settings.use_privacy_coins {
            score += 20;
        }
        if self.settings.delay_transactions {
            score += 5;
        }
        if score > 100 {
            100
        } else {
            score
        }
    }

    /// The features worth adding at the current score, worst gaps first.
    pub fn get_privacy_recommendations(&self) -> (r: Vec<PrivacyRecommendation>)
        ensures
            r@.len() == recommended_features(self.spec_settings()).len(),
            forall|i: int|
                0 <= i < r@.len() ==> ((#[trigger] r@[i].feature, r@[i].priority)
                    == recommended_features(self.spec_settings())[i]),
    {
        let mut recommendations: Vec<PrivacyRecommendation> = Vec::new();
        let current_score = self.get_privacy_score();
        if current_score < 30 {
            recommendations.push(
                PrivacyRecommendation {
                    feature: PrivacyFeature::Tor,
                    priority: Priority::High,
                    description: String::from_str("Enable Tor for better anonymity"),
                },
            );
        }
        if current_score < 50 {
            recommendations.push(
                PrivacyRecommendation {
                    feature: PrivacyFeature::CoinJoin,
                    priority: Priority::Medium,
                    description: String::from_str("Enable CoinJoin for transaction mixing"),
                },
            );
        }
        if current_score < 70 {
            recommendations.push(
                PrivacyRecommendation {
                    feature: PrivacyFeature::AnonymizeTransactions,
                    priority: Priority::Medium,
                    description: String::from_str("Enable transaction anonymization"),
                },
            );
        }
        if !self.settings.clear_metadata {
            recommendations.push(
                PrivacyRecommendation {
                    feature: PrivacyFeature::ClearMetadata,
                    priority: Priority::Low,
                    description: String::from_str("Clear transaction metadata"),
                },
            );
        }
        recommendations
    }
}

/// The configuration recommended for each level.
pub open spec fn spec_recommended_settings(level: PrivacyLevel) -> PrivacySettings {
    match level {
        PrivacyLevel::Low => PrivacySettings {
            level: PrivacyLevel::Low,
            enable_tor: false,
            enable_coinjoin: false,
            enable_mixing: false,
            clear_metadata: false,
            anonymize_transactions: false,
            use_privacy_coins: false,
            delay_transactions: false,
            transaction_delay_min: 0,
            transaction_delay_max: 0,
        },
        PrivacyLevel::Medium => default_settings(),
        PrivacyLevel::High => PrivacySettings {
            level: PrivacyLevel::High,
            enable_tor: true,
            enable_coinjoin: true,
            enable_mixing: false,
            clear_metadata: true,
            anonymize_transactions: true,
            use_privacy_coins: false,
            delay_transactions: true,
            transaction_delay_min: 60,
            transaction_delay_max: 300,
        },
        PrivacyLevel::Maximum => PrivacySettings {
            level: PrivacyLevel::Maximum,
            enable_tor: true,
            enable_coinjoin: true,
            enable_mixing: true,
            clear_metadata: true,
            anonymize_transactions: true,
            use_privacy_coins: true,
            delay_transactions: true,
            transaction_delay_min: 300,
            transaction_delay_max: 1800,
        },
    }
}

/// How long to hold a transaction back, from the configured window and one
/// drawn number: nothing when delays are off, the lower bound when the
/// window is empty, else the lower bound plus the draw folded into the
/// window.
pub open spec fn spec_transaction_delay(s: PrivacySettings, entropy: u64) -> int {
    if !s.delay_transactions {
        0
    } else if s.transaction_delay_min >= s.transaction_delay_max {
        s.transaction_delay_min as int
    } else {
        s.transaction_delay_min + entropy as int % (s.transaction_delay_max
            - s.transaction_delay_min)
    }
}

impl PrivacyEngine {
    /// The delay to hold a transaction back for, folding a drawn number
    /// into the configured window.
    pub fn calculate_transaction_delay(&self, entropy: u64) -> (r: u64)
        ensures
            r as int == spec_transaction_delay(self.spec_settings(), entropy),
    {
        if !self.settings.delay_transactions {
            return 0;
        }
        let min_delay = self.settings.transaction_delay_min;
        let max_delay = self.settings.transaction_delay_max;
        if min_delay >= max_delay {
            min_delay
        } else {
            min_delay + entropy % (max_delay - min_delay)
        }
    }
}

} // verus!
