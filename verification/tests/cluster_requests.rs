use std::collections::BTreeSet;

use tx_orderer::error::Error;
use tx_orderer::rpc::cluster::enable_leader_processing::enable_leader_processing;
use tx_orderer::rpc::cluster::get_raw_transaction_list::{
    hand_over_leadership, order_commitment_info_source, plan_leader_sync, LeaderChangeMessage,
};
use tx_orderer::rpc::cluster::send_end_signal::{accept_end_signal, end_signal_sync_targets, SendEndSignal};
use tx_orderer::rpc::cluster::set_leader_tx_orderer::apply_set_leader_tx_orderer;
use tx_orderer::rpc::cluster::sync_can_provide_epoch_info::apply_sync_can_provide_epoch_info;
use tx_orderer::rpc::cluster::sync_epoch_metadata::apply_sync_epoch_metadata;
use tx_orderer::rpc::cluster::sync_epoch_raw_transaction::check_order_commitment;
use tx_orderer::rpc::cluster::sync_leader_tx_orderer::{
    apply_sync_leader_tx_orderer, epoch_leader_cluster_rpc_url, SyncLeaderTxOrderer,
};
use tx_orderer::rpc::external::send_encrypted_transaction::{
    check_supported_encrypted_transaction, leader_external_rpc_url,
};
use tx_orderer::rpc::internal::add_cluster::AddCluster;
use tx_orderer::types::address::{Address, Signature};
use tx_orderer::types::atomic_epoch_metadata::AtomicEpochMetadata;
use tx_orderer::types::cluster_metadata::{Cluster, ClusterMetadata, TxOrdererRpcInfo};
use tx_orderer::types::encrypted_transaction::{
    EncryptedTransaction, PvdeEncryptedTransaction, SkdeEncryptedTransaction,
};
use tx_orderer::types::epoch_metadata::{CanProvideEpochInfo, EpochMetadata};
use tx_orderer::types::order_commitment::{
    OrderCommitment, OrderCommitmentData, SignOrderCommitment, SingleOrderCommitment,
    TransactionHashOrderCommitment,
};
use tx_orderer::types::rollup::{
    EncryptedTransactionType, LivenessServiceProvider, OrderCommitmentType, Platform, Rollup,
    RollupType, ValidationInfo, ValidationServiceInfo,
};
use tx_orderer::types::rollup_metadata::RollupMetadata;

fn address(byte: u8) -> Address {
    Address([byte; 20])
}

fn info(byte: u8, external: Option<&str>, cluster: Option<&str>) -> TxOrdererRpcInfo {
    TxOrdererRpcInfo {
        tx_orderer_address: address(byte),
        external_rpc_url: external.map(|u| u.to_string()),
        cluster_rpc_url: cluster.map(|u| u.to_string()),
    }
}

fn cluster(own: u8) -> Cluster {
    Cluster {
        tx_orderer_address: address(own),
        tx_orderer_rpc_infos: vec![
            (0, info(1, Some("http://one"), Some("http://one-cluster"))),
            (1, info(2, Some("http://two"), Some("http://two-cluster"))),
            (2, info(3, None, Some("http://three-cluster"))),
            (3, info(4, None, None)),
        ],
    }
}

fn message(current: u8, next: u8) -> LeaderChangeMessage {
    LeaderChangeMessage {
        rollup_id: "rollup".to_string(),
        executor_address: address(9),
        platform_block_height: 200,
        current_leader_tx_orderer_address: address(current),
        next_leader_tx_orderer_address: address(next),
    }
}

fn rollup_metadata() -> RollupMetadata {
    let mut metadata = RollupMetadata::default();
    metadata.batch_number = 4;
    metadata.transaction_order = 7;
    metadata.max_transaction_count_per_batch = 10;
    metadata
}

fn end_signal(epoch: u64, sender: u8) -> SendEndSignal {
    SendEndSignal { rollup_id: "rollup".to_string(), epoch, sender_address: address(sender) }
}

#[test]
fn epoch_completes_once_every_node_signalled() {
    let cluster = cluster(1);
    let mut metadata = ClusterMetadata::new("cluster".to_string(), 1);
    metadata.epoch_leader_map.insert(3, address(1));
    for sender in [1u8, 2, 3] {
        let receipt = accept_end_signal(&mut metadata, &cluster, &address(1), &end_signal(3, sender)).unwrap();
        assert_eq!(receipt.current_node_cluster_rpc_url, "http://one-cluster");
        assert!(!receipt.epoch_completed);
    }
    let receipt = accept_end_signal(&mut metadata, &cluster, &address(1), &end_signal(3, 4)).unwrap();
    assert!(receipt.epoch_completed);
    let again = accept_end_signal(&mut metadata, &cluster, &address(1), &end_signal(3, 2)).unwrap();
    assert!(again.epoch_completed);
    assert!(!metadata.all_nodes_sent_signal(4, 4));
    assert!(metadata.all_nodes_sent_signal(4, 0));
}

#[test]
fn end_signal_refusals_change_nothing() {
    let cluster = cluster(1);
    let mut metadata = ClusterMetadata::new("cluster".to_string(), 1);
    metadata.epoch_leader_map.insert(3, address(2));
    assert!(matches!(
        accept_end_signal(&mut metadata, &cluster, &address(1), &end_signal(3, 2)),
        Err(Error::NotEpochLeader)
    ));
    metadata.epoch_leader_map.insert(3, address(1));
    assert!(matches!(
        accept_end_signal(&mut metadata, &cluster, &address(1), &end_signal(3, 8)),
        Err(Error::SenderNotInCluster)
    ));
    assert!(matches!(
        accept_end_signal(&mut metadata, &cluster, &address(8), &end_signal(3, 2)),
        Err(Error::TxOrdererInfoNotFound)
    ));
    assert!(matches!(
        accept_end_signal(&mut metadata, &cluster, &address(4), &end_signal(3, 2)),
        Err(Error::ClusterRpcUrlNotFound)
    ));
    assert!(metadata.end_signal_bitmap.is_empty());
}

#[test]
fn end_signal_sync_skips_the_current_node() {
    let cluster = cluster(1);
    let targets = end_signal_sync_targets(&cluster, &"http://two-cluster".to_string()).unwrap();
    assert_eq!(targets, vec!["http://three-cluster".to_string()]);
    let alone = Cluster {
        tx_orderer_address: address(1),
        tx_orderer_rpc_infos: vec![(0, info(1, None, Some("http://one-cluster")))],
    };
    assert_eq!(end_signal_sync_targets(&alone, &"http://one-cluster".to_string()), None);
}

#[test]
fn leader_sync_goes_to_the_next_leader_first() {
    let cluster = cluster(1);
    let plan = plan_leader_sync(&cluster, &address(2)).unwrap().unwrap();
    assert_eq!(plan.next_leader_cluster_rpc_url, "http://two-cluster");
    assert_eq!(plan.other_cluster_rpc_urls, vec!["http://three-cluster".to_string()]);
    assert!(plan_leader_sync(&cluster, &address(8)).unwrap().is_none());
    let alone = Cluster {
        tx_orderer_address: address(1),
        tx_orderer_rpc_infos: vec![(0, info(1, None, Some("http://one-cluster")))],
    };
    assert!(matches!(plan_leader_sync(&alone, &address(1)), Err(Error::NoClusterRpcUrl)));
}

#[test]
fn set_leader_moves_to_the_next_epoch() {
    let cluster = cluster(1);
    let mut metadata = ClusterMetadata::new("cluster".to_string(), 1);
    metadata.epoch = 6;
    let rotated = apply_set_leader_tx_orderer(&mut metadata, &cluster, &address(2), &message(1, 2)).unwrap();
    assert_eq!(rotated, (6, 7, false));
    assert_eq!(metadata.epoch, 7);
    assert!(metadata.is_leader);
    assert_eq!(metadata.platform_block_height, 200);
    assert_eq!(metadata.epoch_leader_map.get(&6), Some(&address(1)));
    assert_eq!(metadata.epoch_leader_map.get(&7), Some(&address(2)));
    assert_eq!(
        metadata.leader_tx_orderer_rpc_info.as_ref().unwrap().external_rpc_url.as_deref(),
        Some("http://two")
    );
    assert!(matches!(
        apply_set_leader_tx_orderer(&mut metadata, &cluster, &address(2), &message(2, 8)),
        Err(Error::TxOrdererInfoNotFound)
    ));
    assert_eq!(metadata.epoch, 7);
}

#[test]
fn sync_leader_takes_the_leaders_state() {
    let cluster = cluster(1);
    let mut metadata = ClusterMetadata::new("cluster".to_string(), 1);
    metadata.epoch_leader_map.insert(10, address(3));
    metadata.epoch_leader_map.insert(11, address(1));
    let mut rollup = rollup_metadata();
    let mut epochs = EpochMetadata::default();
    let request = SyncLeaderTxOrderer {
        leader_change_message: message(3, 2),
        rollup_signature: Signature(vec![]),
        batch_number: 9,
        transaction_order: 3,
        provided_batch_number: 8,
        provided_transaction_order: 5,
        old_epoch: 10,
        new_epoch: 11,
        epoch_metadata: EpochMetadata { last_batched_epoch: Some(9) },
    };
    let mismatch = apply_sync_leader_tx_orderer(&mut metadata, &mut rollup, &mut epochs, &cluster, &address(1), &request).unwrap();
    assert!(mismatch);
    assert!(!metadata.is_leader);
    assert_eq!(metadata.epoch, 11);
    assert_eq!(metadata.epoch_leader_map.get(&11), Some(&address(2)));
    assert_eq!(metadata.epoch_leader_map.get(&10), Some(&address(3)));
    assert_eq!((rollup.batch_number, rollup.transaction_order), (9, 3));
    assert_eq!((rollup.provided_batch_number, rollup.provided_transaction_order), (8, 5));
    assert_eq!(rollup.max_transaction_count_per_batch, 10);
    assert_eq!(epochs.last_batched_epoch, Some(9));
    assert_eq!(epoch_leader_cluster_rpc_url(&metadata, &cluster, 10).unwrap(), "http://three-cluster");
    assert!(matches!(epoch_leader_cluster_rpc_url(&metadata, &cluster, 12), Err(Error::EpochLeaderAddressNotFound)));
    metadata.epoch_leader_map.insert(12, address(4));
    assert!(matches!(epoch_leader_cluster_rpc_url(&metadata, &cluster, 12), Err(Error::EpochLeaderClusterRpcUrlNotFound)));
}

#[test]
fn handover_records_provided_position_and_next_epoch() {
    let cluster = cluster(2);
    let mut metadata = ClusterMetadata::new("cluster".to_string(), 1);
    metadata.epoch = 4;
    metadata.is_leader = false;
    metadata.leader_tx_orderer_rpc_info = Some(info(1, Some("http://one"), Some("http://one-cluster")));
    metadata.increment_sent_transaction_count(4);
    metadata.increment_sent_transaction_count(4);
    assert_eq!(order_commitment_info_source(&metadata).as_deref(), Some("http://one-cluster"));
    let mut rollup = rollup_metadata();
    let handover = hand_over_leadership(&mut metadata, &mut rollup, &cluster, &address(2), &message(1, 2), (3, 6), Some((5, 1))).unwrap();
    assert_eq!((handover.old_epoch, handover.new_epoch), (4, 5));
    assert_eq!(handover.epoch_leader_cluster_rpc_url, "http://one-cluster");
    assert_eq!(handover.epoch_sent_transaction_count, 2);
    assert!(metadata.is_leader);
    assert_eq!(metadata.epoch, 5);
    assert_eq!(metadata.epoch_leader_map.get(&4), Some(&address(1)));
    assert_eq!(metadata.epoch_leader_map.get(&5), Some(&address(2)));
    assert_eq!((rollup.provided_batch_number, rollup.provided_transaction_order), (3, 6));
    assert_eq!((rollup.batch_number, rollup.transaction_order), (5, 1));
    assert_eq!(order_commitment_info_source(&metadata), None);

    let mut unchanged = rollup_metadata();
    assert!(matches!(
        hand_over_leadership(&mut metadata, &mut unchanged, &cluster, &address(2), &message(4, 2), (9, 9), None),
        Err(Error::EpochLeaderClusterRpcUrlNotFound)
    ));
    assert_eq!(metadata.epoch, 5);
    assert_eq!(unchanged.provided_batch_number, 0);
}

#[test]
fn sync_requests_update_counters_and_epochs() {
    let mut counters = AtomicEpochMetadata::new();
    let mut info = CanProvideEpochInfo::default();
    assert_eq!(apply_sync_can_provide_epoch_info(&mut counters, &mut info, 4, 12), None);
    assert_eq!(apply_sync_can_provide_epoch_info(&mut counters, &mut info, 4, 99), Some(12));
    assert_eq!(counters.transaction_order(4), 12);
    assert!(info.completed_epoch.contains(&4));
    counters.issue_transaction_order(5);
    let mut epochs = EpochMetadata::default();
    apply_sync_epoch_metadata(&mut epochs, &mut counters, 4);
    assert_eq!(epochs.last_batched_epoch, Some(4));
    assert_eq!(counters.transaction_order(4), 0);
    assert_eq!(counters.transaction_order(5), 1);
    let _ = BTreeSet::<u64>::new();
}

#[test]
fn order_commitments_must_come_from_cluster_nodes() {
    let cluster = cluster(1);
    let signed = OrderCommitment::Single(SingleOrderCommitment::Sign(SignOrderCommitment {
        data: OrderCommitmentData::default(),
        signature: Signature(vec![0; 65]),
    }));
    assert!(check_order_commitment(&signed, &Some(address(3)), &cluster).is_ok());
    assert!(matches!(check_order_commitment(&signed, &Some(address(7)), &cluster), Err(Error::InvalidOrderCommitment)));
    assert!(matches!(check_order_commitment(&signed, &None, &cluster), Err(Error::InvalidOrderCommitment)));
    let hashed = OrderCommitment::Single(SingleOrderCommitment::TransactionHash(
        TransactionHashOrderCommitment("0x00".to_string()),
    ));
    assert!(check_order_commitment(&hashed, &None, &cluster).is_ok());
}

#[test]
fn enable_leader_processing_sets_only_its_flag() {
    let mut metadata = ClusterMetadata::new("cluster".to_string(), 3);
    metadata.epoch = 2;
    enable_leader_processing(&mut metadata);
    assert!(metadata.can_process_as_leader);
    assert!(!metadata.is_leader);
    assert_eq!(metadata.epoch, 2);
}

fn rollup(mempool: EncryptedTransactionType) -> Rollup {
    Rollup::new(
        "rollup".to_string(),
        RollupType::PolygonCdk,
        mempool,
        address(5),
        ValidationInfo::Symbiotic(ValidationServiceInfo {
            platform: Platform::Ethereum,
            validation_service_manager: address(6),
        }),
        OrderCommitmentType::Sign,
        vec![],
        "cluster".to_string(),
        Platform::Ethereum,
        LivenessServiceProvider::Radius,
    )
}

#[test]
fn encrypted_mempools_accept_their_kinds() {
    let pvde = EncryptedTransaction::Pvde(PvdeEncryptedTransaction { payload: "p".to_string() });
    let skde = EncryptedTransaction::Skde(SkdeEncryptedTransaction { payload: "s".to_string() });
    assert!(check_supported_encrypted_transaction(&rollup(EncryptedTransactionType::Pvde), &pvde).is_ok());
    assert!(check_supported_encrypted_transaction(&rollup(EncryptedTransactionType::Pvde), &skde).is_ok());
    assert!(check_supported_encrypted_transaction(&rollup(EncryptedTransactionType::Skde), &skde).is_ok());
    assert!(matches!(
        check_supported_encrypted_transaction(&rollup(EncryptedTransactionType::Skde), &pvde),
        Err(Error::UnsupportedEncryptedMempool)
    ));
    assert!(matches!(
        check_supported_encrypted_transaction(&rollup(EncryptedTransactionType::NotSupport), &skde),
        Err(Error::UnsupportedEncryptedMempool)
    ));
}

#[test]
fn encrypted_transactions_are_forwarded_to_the_current_leader() {
    let mut metadata = ClusterMetadata::new("cluster".to_string(), 3);
    assert!(matches!(leader_external_rpc_url(&metadata), Err(Error::EmptyLeader)));
    metadata.leader_tx_orderer_rpc_info = Some(info(2, None, Some("http://two-cluster")));
    assert!(matches!(leader_external_rpc_url(&metadata), Err(Error::EmptyLeaderClusterRpcUrl)));
    metadata.leader_tx_orderer_rpc_info = Some(info(2, Some("http://two"), None));
    assert_eq!(leader_external_rpc_url(&metadata).unwrap(), "http://two");
}

#[test]
fn clusters_are_added_on_ethereum_only() {
    let add = |platform| AddCluster {
        platform,
        liveness_service_provider: LivenessServiceProvider::Radius,
        cluster_id: "cluster".to_string(),
    };
    assert!(add(Platform::Ethereum).is_supported());
    assert!(!add(Platform::Holesky).is_supported());
    assert!(!add(Platform::Local).is_supported());
    let metadata = add(Platform::Ethereum).initial_cluster_metadata(77);
    assert_eq!(metadata.cluster_id, "cluster");
    assert_eq!(metadata.platform_block_height, 77);
    assert_eq!(metadata.epoch, 0);
    assert!(metadata.epoch_leader_map.is_empty());
}
