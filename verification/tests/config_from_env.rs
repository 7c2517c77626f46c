use micro_core::config::{
    ConfigError, ETHClientConfig, FriProofCompressorConfig, FriProverDashboardConfig,
    FriProverGatewayConfig, FriProverTaskApplyConfig, MonitorConfig,
};
use std::time::Duration;

/// The variables of an env fixture: one `NAME=value` per line, quotes around the value
/// removed.
fn env_vars(fixture: &str) -> Vec<(String, String)> {
    let mut vars = Vec::new();
    for line in fixture.split('\n').map(str::trim) {
        if line.is_empty() {
            continue;
        }
        let elements: Vec<&str> = line.split('=').collect();
        vars.push((elements[0].to_string(), elements[1].trim_matches('"').to_string()));
    }
    vars
}

#[test]
fn eth_client_from_env() {
    let config = r#"
ETH_CLIENT_CHAIN_ID="9"
ETH_CLIENT_WEB3_URL="http://127.0.0.1:1234/rpc/v1"
        "#;
    let actual = ETHClientConfig::from_env(&env_vars(config)).unwrap();
    let expected = ETHClientConfig {
        chain_id: 9,
        web3_url: "http://127.0.0.1:1234/rpc/v1".into(),
    };
    assert_eq!(actual, expected);
}

#[test]
fn eth_client_rejects_several_urls() {
    let config = r#"
ETH_CLIENT_CHAIN_ID="9"
ETH_CLIENT_WEB3_URL="http://a:1,http://b:2"
        "#;
    // the fields read as they are; a loader refuses the URL before calling `from_env`
    let fields = ETHClientConfig::read_fields(&env_vars(config)).unwrap();
    assert_eq!(fields.web3_url, "http://a:1,http://b:2");
    assert!(!fields.has_single_web3_url());
    let single = ETHClientConfig { chain_id: 9, web3_url: "http://a:1".to_string() };
    assert!(single.has_single_web3_url());
}

#[test]
fn eth_client_missing_and_invalid() {
    let missing = env_vars("ETH_CLIENT_WEB3_URL=\"http://x\"");
    assert_eq!(
        ETHClientConfig::from_env(&missing),
        Err(ConfigError::Missing("ETH_CLIENT_CHAIN_ID".to_string()))
    );
    let invalid = env_vars("ETH_CLIENT_CHAIN_ID=nine\nETH_CLIENT_WEB3_URL=http://x");
    assert_eq!(
        ETHClientConfig::from_env(&invalid),
        Err(ConfigError::Invalid("ETH_CLIENT_CHAIN_ID".to_string()))
    );
    // The first field with a problem is the one reported.
    let both = env_vars("ETH_CLIENT_CHAIN_ID=-1");
    assert_eq!(
        ETHClientConfig::from_env(&both),
        Err(ConfigError::Invalid("ETH_CLIENT_CHAIN_ID".to_string()))
    );
}

#[test]
fn fri_proof_compressor_from_env() {
    let config = r#"
            FRI_PROOF_COMPRESSOR_COMPRESSION_MODE=1
            FRI_PROOF_COMPRESSOR_PROMETHEUS_LISTENER_PORT=3316
            FRI_PROOF_COMPRESSOR_PROMETHEUS_PUSHGATEWAY_URL="http://127.0.0.1:9091"
            FRI_PROOF_COMPRESSOR_PROMETHEUS_PUSH_INTERVAL_MS=100
            FRI_PROOF_COMPRESSOR_GENERATION_TIMEOUT_IN_SECS=3000
            FRI_PROOF_COMPRESSOR_MAX_ATTEMPTS=5
            FRI_PROOF_COMPRESSOR_UNIVERSAL_SETUP_PATH="keys/setup/setup_2^26.key"
            FRI_PROOF_COMPRESSOR_UNIVERSAL_SETUP_DOWNLOAD_URL="https://storage.googleapis.com/zkamoeba-setup-keys-us/setup-keys/setup_2^26.key"
            FRI_PROOF_COMPRESSOR_VERIFY_WRAPPER_PROOF=false
            FRI_PROOF_COMPRESSOR_APP_MONITOR_URL="http://127.0.0.1:3000"
            FRI_PROOF_COMPRESSOR_RETRY_INTERVAL_MS=30000
        "#;
    let actual = FriProofCompressorConfig::from_env(&env_vars(config)).unwrap();
    let expected = FriProofCompressorConfig {
        compression_mode: 1,
        prometheus_listener_port: 3316,
        prometheus_pushgateway_url: "http://127.0.0.1:9091".to_string(),
        prometheus_push_interval_ms: Some(100),
        generation_timeout_in_secs: 3000,
        max_attempts: 5,
        universal_setup_path: "keys/setup/setup_2^26.key".to_string(),
        universal_setup_download_url:
            "https://storage.googleapis.com/zkamoeba-setup-keys-us/setup-keys/setup_2^26.key"
                .to_string(),
        verify_wrapper_proof: false,
        app_monitor_url: Some("http://127.0.0.1:3000".to_string()),
        retry_interval_ms: Some(30000),
    };
    assert_eq!(actual, expected);
}

#[test]
fn fri_proof_compressor_field_out_of_range() {
    let config = r#"
            FRI_PROOF_COMPRESSOR_COMPRESSION_MODE=256
        "#;
    assert_eq!(
        FriProofCompressorConfig::from_env(&env_vars(config)),
        Err(ConfigError::Invalid("FRI_PROOF_COMPRESSOR_COMPRESSION_MODE".to_string()))
    );
}

#[test]
fn fri_prover_task_apply_from_env() {
    let config = r#"
            FRI_PROVER_TASK_APPLY_RPC_URL="http://private-dns-for-server"
            FRI_PROVER_TASK_APPLY_POLL_DURATION_SECS="100"
            FRI_PROVER_TASK_APPLY_CALL_CONTRACT_DURATION_SECS="1800"
            FRI_PROVER_TASK_APPLY_CONFIRMATIONS_FOR_ETH_EVENT="10"
            FRI_PROVER_TASK_APPLY_CONTRACT_APPLY_COUNT="3"
            FRI_PROVER_TASK_APPLY_CHAIN_ID="270"
            FRI_PROVER_TASK_APPLY_APP_MONITOR_URL="http://127.0.0.1:3000"
            FRI_PROVER_TASK_APPLY_RETRY_INTERVAL_MS=30000

        "#;
    let actual = FriProverTaskApplyConfig::from_env(&env_vars(config)).unwrap();
    let expected = FriProverTaskApplyConfig {
        rpc_url: "http://private-dns-for-server".to_string(),
        poll_duration_secs: 100,
        confirmations_for_eth_event: 10,
        call_contract_duration_secs: 1800,
        contract_apply_count: Some(3),
        chain_id: 270,
        app_monitor_url: Some("http://127.0.0.1:3000".to_string()),
        retry_interval_ms: Some(30000),
    };
    assert_eq!(actual, expected);
    assert_eq!(actual.poll_duration(), Duration::from_secs(100));
    assert_eq!(actual.call_contract_duration_secs(), Duration::from_secs(1800));
}

#[test]
fn fri_prover_task_apply_optional_fields_absent() {
    let config = r#"
            FRI_PROVER_TASK_APPLY_RPC_URL="http://x"
            FRI_PROVER_TASK_APPLY_POLL_DURATION_SECS="1"
            FRI_PROVER_TASK_APPLY_CALL_CONTRACT_DURATION_SECS="2"
            FRI_PROVER_TASK_APPLY_CONFIRMATIONS_FOR_ETH_EVENT="3"
            FRI_PROVER_TASK_APPLY_CHAIN_ID="4"
        "#;
    let actual = FriProverTaskApplyConfig::from_env(&env_vars(config)).unwrap();
    assert_eq!(actual.contract_apply_count, None);
    assert_eq!(actual.app_monitor_url, None);
    assert_eq!(actual.retry_interval_ms, None);
}

#[test]
fn monitor_from_env() {
    let config = r#"
            MONITOR_TRANSACTIONS_TIMEOUT_IN_SECS="3600"
            MONITOR_TRANSACTIONS_RETRY_INTERVAL_MS="1000"
        "#;
    let actual = MonitorConfig::from_env(&env_vars(config)).unwrap();
    let expected = MonitorConfig {
        timeout_in_secs: 3600,
        retry_interval_ms: 1000,
    };
    assert_eq!(actual, expected);
    assert_eq!(actual.monitor_transactions_timeout(), Duration::from_secs(3600));
}

#[test]
fn fri_prover_dashboard_from_env() {
    let config = r#"
            FRI_PROVER_DASHBOARD_HOST="0.0.0.0"
            FRI_PROVER_DASHBOARD_PORT="3012"
            FRI_PROVER_DASHBOARD_HEALTH_CHECK_INTERVAL="60"
        "#;
    let actual = FriProverDashboardConfig::from_env(&env_vars(config)).unwrap();
    let expected = FriProverDashboardConfig {
        host: "0.0.0.0".to_string(),
        port: 3012,
        health_check_interval: 60,
    };
    assert_eq!(actual, expected);
    let bad_port = env_vars("FRI_PROVER_DASHBOARD_HOST=h\nFRI_PROVER_DASHBOARD_PORT=70000");
    assert_eq!(
        FriProverDashboardConfig::from_env(&bad_port),
        Err(ConfigError::Invalid("FRI_PROVER_DASHBOARD_PORT".to_string()))
    );
}

#[test]
fn gateway_poll_duration() {
    let config = FriProverGatewayConfig {
        api_url: "http://gateway".to_string(),
        api_poll_duration_secs: 1000,
        prometheus_listener_port: 3314,
        prometheus_pushgateway_url: "http://127.0.0.1:9091".to_string(),
        prometheus_push_interval_ms: Some(100),
        app_monitor_url: None,
        retry_interval_ms: None,
    };
    assert_eq!(config.api_poll_duration(), Duration::from_secs(1000));
}
