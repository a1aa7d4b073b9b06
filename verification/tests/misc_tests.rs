use satsconnect_core::authentication::AuthConfig;
use satsconnect_core::authentication::AuthenticationService;
use satsconnect_core::biometric_auth::BiometricAuth;
use satsconnect_core::biometric_auth::BiometricType;
use satsconnect_core::config::LightningNodeConfig;
use satsconnect_core::currency_service::get_currency_info;
use satsconnect_core::currency_service::get_supported_currencies;
use satsconnect_core::currency_service::Currency;
use satsconnect_core::hardware_wallet::HardwareWallet;
use satsconnect_core::hardware_wallet::HardwareWalletClient;
use satsconnect_core::hardware_wallet::WalletCapability;
use satsconnect_core::hardware_wallet::WalletType;
use satsconnect_core::health_check::overall_status;
use satsconnect_core::health_check::ApiHealthCheck;
use satsconnect_core::health_check::DatabaseHealthCheck;
use satsconnect_core::health_check::HealthStatus;
use satsconnect_core::health_check::LightningHealthCheck;
use satsconnect_core::secure_enclave::KeyType;
use satsconnect_core::secure_enclave::OperationType;
use satsconnect_core::secure_enclave::SecureEnclave;
use satsconnect_core::CoreError;

#[test]
fn test_currency_service_creation() {
    let currencies = get_supported_currencies();
    assert_eq!(currencies.len(), 10);
    assert_eq!(currencies[0], Currency::KES);
}

#[test]
fn test_currency_properties() {
    assert_eq!(Currency::KES.code(), "KES");
    assert_eq!(Currency::KES.name(), "Kenyan Shilling");
    assert_eq!(Currency::KES.symbol(), "KSh");
    assert_eq!(Currency::KES.min_sats(), 100);
    assert_eq!(Currency::KES.max_sats(), 1_000_000);
    assert_eq!(Currency::TZS.max_sats(), 2_500_000);

    let info = get_currency_info(Currency::NGN);
    assert_eq!(info.code, "NGN");
    assert_eq!(info.min_sats, 50);
    assert_eq!(info.max_sats, 500_000);
}

#[test]
fn test_hardware_wallet_connection() {
    let mut wallet = HardwareWallet::new(WalletType::Ledger);
    assert!(!wallet.is_connected());

    let result = wallet.connect();
    if result.is_ok() {
        assert!(wallet.is_connected());
        assert!(wallet.get_device_id().is_some());
    }
}

#[test]
fn test_hardware_wallet_capabilities() {
    let wallet = HardwareWallet::new(WalletType::Trezor);
    let capabilities = wallet.get_capabilities();

    assert!(capabilities.contains(&WalletCapability::SignTransaction));
    assert!(capabilities.contains(&WalletCapability::GenerateAddress));
    assert!(capabilities.contains(&WalletCapability::PassphraseSupport));
}

#[test]
fn test_hardware_wallet_client_operations() {
    let mut wallet = HardwareWallet::new(WalletType::Ledger);
    // The stub link fails one connection in ten; retry until it opens.
    let mut tries = 0;
    while wallet.connect().is_err() {
        tries += 1;
        assert!(tries < 500);
    }

    let client = HardwareWalletClient::new(wallet);

    let mut tries = 0;
    let address = loop {
        match client.generate_address("m/84'/0'/0'/0/0") {
            Ok(a) => break a,
            Err(_) => {
                tries += 1;
                assert!(tries < 500);
            }
        }
    };
    assert!(!address.is_empty());
    assert!(address.starts_with("bc1q"));
}

#[test]
fn test_hardware_wallet_disconnected_client() {
    let wallet = HardwareWallet::new(WalletType::Ledger);
    let client = HardwareWalletClient::new(wallet);
    assert_eq!(
        client.sign_transaction(&[1, 2, 3]),
        Err(CoreError::Validation)
    );
    assert_eq!(client.verify_address("bc1qxyz"), Err(CoreError::Validation));
    let info = client.get_wallet_info();
    assert_eq!(info.wallet_type, WalletType::Ledger);
    assert!(!info.connected);
    assert_eq!(info.capabilities.len(), 4);
}

#[test]
fn test_hardware_wallet_signing() {
    let mut wallet = HardwareWallet::new(WalletType::Coldcard);
    let mut tries = 0;
    while wallet.connect().is_err() {
        tries += 1;
        assert!(tries < 500);
    }
    let client = HardwareWalletClient::new(wallet);
    let mut tries = 0;
    let signature = loop {
        match client.sign_transaction(&[9, 9, 9]) {
            Ok(s) => break s,
            Err(_) => {
                tries += 1;
                assert!(tries < 500);
            }
        }
    };
    assert_eq!(signature.len(), 64);
    let key = loop {
        match client.get_public_key("m/84'/0'/0'") {
            Ok(k) => break k,
            Err(_) => unreachable!(),
        }
    };
    assert_eq!(key.len(), 33);
    assert_eq!(key[0], 2);
}

#[test]
fn test_secure_enclave_keys() {
    let mut enclave = SecureEnclave::new();
    assert!(enclave.get_all_keys().is_empty());

    let key = enclave
        .generate_key("master".to_string(), KeyType::Signing, 5)
        .unwrap();
    assert_eq!(key.key_id, "master");
    assert_eq!(key.key_type, KeyType::Signing);
    assert_eq!(key.created_at, 5);

    assert_eq!(enclave.get_all_keys().len(), 1);
    assert!(enclave.get_key("master").is_some());
    assert!(enclave.get_key("missing").is_none());

    let ops = enclave.get_operations();
    assert_eq!(ops.len(), 1);
    assert_eq!(ops[0].operation_type, OperationType::KeyGeneration);
    assert!(ops[0].success);
    assert!(ops[0].operation_id.starts_with("op_"));

    // Generating under the same id replaces the key, not duplicates it.
    enclave
        .generate_key("master".to_string(), KeyType::Encryption, 6)
        .unwrap();
    assert_eq!(enclave.get_all_keys().len(), 1);
    assert_eq!(enclave.get_key("master").unwrap().key_type, KeyType::Encryption);
    assert_eq!(enclave.get_operations().len(), 2);
}

#[test]
fn test_biometric_auth() {
    let mut auth = BiometricAuth::new();
    assert!(!auth.is_available());
    assert!(auth.get_supported_types().is_empty());

    auth.initialize().unwrap();
    assert!(auth.is_available());
    let types = auth.get_supported_types();
    assert_eq!(types, vec![BiometricType::Fingerprint, BiometricType::FaceId]);
}

#[test]
fn test_health_status_combination() {
    assert_eq!(overall_status(&vec![]), HealthStatus::Healthy);
    assert_eq!(
        overall_status(&vec![HealthStatus::Healthy, HealthStatus::Healthy]),
        HealthStatus::Healthy
    );
    assert_eq!(
        overall_status(&vec![HealthStatus::Healthy, HealthStatus::Unknown]),
        HealthStatus::Unknown
    );
    assert_eq!(
        overall_status(&vec![HealthStatus::Degraded, HealthStatus::Unknown]),
        HealthStatus::Degraded
    );
    assert_eq!(
        overall_status(&vec![HealthStatus::Unhealthy, HealthStatus::Healthy, HealthStatus::Degraded]),
        HealthStatus::Unhealthy
    );
}

#[test]
fn test_health_check_probes() {
    let db = DatabaseHealthCheck::new("postgres://localhost".to_string());
    assert_eq!(db.connection_string, "postgres://localhost");
    let ln = LightningHealthCheck::new("127.0.0.1:9735".to_string());
    assert_eq!(ln.node_endpoint, "127.0.0.1:9735");
    let api = ApiHealthCheck::new("127.0.0.1:8080".to_string());
    assert_eq!(api.api_endpoint, "127.0.0.1:8080");
}

#[test]
fn test_lightning_node_config_window() {
    let good = LightningNodeConfig {
        channel_confirmation_timeout: 6,
        max_channel_size: 10_000_000,
        min_channel_size: 100_000,
        channel_reserve: 10_000,
        announce_channels: true,
        accept_incoming_channels: true,
    };
    assert!(good.validate());
    let bad = LightningNodeConfig { min_channel_size: 2, max_channel_size: 1, ..good };
    assert!(!bad.validate());
}

#[test]
fn test_password_hash_round_trip() {
    let service = AuthenticationService::new(AuthConfig {
        jwt_secret: "default_secret_key".to_string(),
        token_expiry_secs: 3600,
        max_failed_attempts: 5,
        lockout_secs: 900,
        rate_limit_requests: 100,
        rate_limit_window_secs: 3600,
    });
    let hash = service.hash_password("hunter2").unwrap();
    assert_eq!(hash, "hash_hunter2");
    assert!(service.verify_password("hunter2", &hash).unwrap());
    assert!(!service.verify_password("other", &hash).unwrap());
}
