use micro_core::gas_tracker::{
    additional_pubdata_commit_cost, additional_writes_commit_cost, agg_l1_batch_base_cost,
    base_tx_cost, commit_gas_count_for_l1_batch, gas_count_from_metrics,
    gas_count_from_tx_and_metrics, gas_count_from_writes, l1_batch_base_cost,
    new_block_gas_count, AggregatedActionType, BlockGasCount, CommitMetadata, TransactionKind,
};
use micro_core::network::{L1ChainId, Network};

#[test]
fn network_from_chain_id() {
    assert_eq!(Network::from_chain_id(L1ChainId(314)), Network::Mainnet);
    assert_eq!(Network::from_chain_id(L1ChainId(314159)), Network::Calibration);
    assert_eq!(Network::from_chain_id(L1ChainId(31415926)), Network::Localhost);
    assert_eq!(Network::from_chain_id(L1ChainId(1)), Network::Unknown);
}

#[test]
fn network_chain_id_round_trip() {
    for n in [Network::Mainnet, Network::Calibration, Network::Localhost] {
        assert_eq!(Network::from_chain_id(n.chain_id()), n);
    }
    assert_eq!(Network::Calibration.chain_id(), L1ChainId(314159));
}

#[test]
fn network_names() {
    assert_eq!(Network::from_str("mainnet"), Ok(Network::Mainnet));
    assert_eq!(Network::from_str("calibration"), Ok(Network::Calibration));
    assert_eq!(Network::from_str("localhost"), Ok(Network::Localhost));
    assert_eq!(Network::from_str("test"), Ok(Network::Test));
    assert_eq!(Network::from_str("unknown"), Err("unknown".to_string()));
    assert_eq!(Network::from_str("Mainnet"), Err("Mainnet".to_string()));
    for n in [Network::Mainnet, Network::Calibration, Network::Localhost, Network::Test] {
        assert_eq!(Network::from_str(&n.to_string()), Ok(n));
    }
    assert_eq!(Network::Unknown.to_string(), "unknown");
    assert_eq!(Network::Localhost.as_str(), "localhost");
}

#[test]
fn base_costs() {
    assert_eq!(agg_l1_batch_base_cost(AggregatedActionType::Commit), 60_000_000);
    assert_eq!(agg_l1_batch_base_cost(AggregatedActionType::PublishProofOnchain), 120_000_000);
    assert_eq!(agg_l1_batch_base_cost(AggregatedActionType::Execute), 160_000_000);
    assert_eq!(l1_batch_base_cost(AggregatedActionType::Execute), 160_000_000);
    assert_eq!(base_tx_cost(TransactionKind::L1, AggregatedActionType::Execute), 12_500);
    assert_eq!(base_tx_cost(TransactionKind::L2, AggregatedActionType::Execute), 0);
    assert_eq!(base_tx_cost(TransactionKind::L1, AggregatedActionType::Commit), 0);
    assert_eq!(base_tx_cost(TransactionKind::ProtocolUpgrade, AggregatedActionType::PublishProofOnchain), 0);
}

#[test]
fn gas_counts() {
    assert_eq!(
        new_block_gas_count(),
        BlockGasCount { commit: 60_000_000, prove: 120_000_000, execute: 160_000_000 }
    );
    assert_eq!(additional_pubdata_commit_cost(10), 180);
    assert_eq!(additional_writes_commit_cost(3), 54);
    assert_eq!(
        gas_count_from_tx_and_metrics(TransactionKind::L1, 100),
        BlockGasCount { commit: 1800, prove: 0, execute: 12_500 }
    );
    assert_eq!(
        gas_count_from_tx_and_metrics(TransactionKind::L2, 0),
        BlockGasCount { commit: 0, prove: 0, execute: 0 }
    );
    assert_eq!(gas_count_from_metrics(2), BlockGasCount { commit: 36, prove: 0, execute: 0 });
    assert_eq!(gas_count_from_writes(5), BlockGasCount { commit: 90, prove: 0, execute: 0 });
}

#[test]
fn commit_gas_of_batch() {
    let metadata = CommitMetadata {
        initial_writes_compressed: vec![0; 10],
        repeated_writes_compressed: vec![0; 4],
        l2_l1_messages_compressed: vec![0; 3],
        state_diffs_compressed: vec![0; 7],
    };
    let messages = vec![vec![1u8; 5], vec![2u8; 6]];
    let deps = vec![vec![3u8; 20]];
    // before the upgrade: 10 + 4 (state diff) + 4 + 3 + 11 + 20 = 52 bytes
    assert_eq!(
        commit_gas_count_for_l1_batch(&messages, &deps, Some(true), &metadata),
        60_000_000 + 52 * 18
    );
    // unknown version counts as before the upgrade
    assert_eq!(
        commit_gas_count_for_l1_batch(&messages, &deps, None, &metadata),
        60_000_000 + 52 * 18
    );
    // after the upgrade: 7 + 4 + 3 + 11 + 20 = 45 bytes
    assert_eq!(
        commit_gas_count_for_l1_batch(&messages, &deps, Some(false), &metadata),
        60_000_000 + 45 * 18
    );
    let empty = CommitMetadata {
        initial_writes_compressed: vec![],
        repeated_writes_compressed: vec![],
        l2_l1_messages_compressed: vec![],
        state_diffs_compressed: vec![],
    };
    assert_eq!(commit_gas_count_for_l1_batch(&vec![], &vec![], Some(false), &empty), 60_000_000);
}
