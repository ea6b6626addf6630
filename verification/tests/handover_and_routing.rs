use std::collections::BTreeSet;

use tx_orderer::error::Error;
use tx_orderer::rpc::cluster::get_raw_transaction_list::{
    append_backrunning_transactions, plan_leader_change_sync, unprovided_transactions,
    LeaderChangeMessage,
};
use tx_orderer::rpc::external::send_encrypted_transaction::{
    route_encrypted_transaction, EncryptedTransactionRoute,
};
use tx_orderer::rpc::external::send_raw_transaction::{
    checked_sequence_as_leader, count_redirect, route_raw_transaction, RawTransactionRoute,
    SendRawTransaction,
};
use tx_orderer::types::redirect_ring::RedirectRing;
use tx_orderer::types::address::{Address, Signature};
use tx_orderer::types::atomic_epoch_metadata::AtomicEpochMetadata;
use tx_orderer::types::cluster_metadata::{Cluster, ClusterMetadata, TxOrdererRpcInfo};
use tx_orderer::types::encrypted_transaction::{
    EncryptedTransaction, PvdeEncryptedTransaction, SkdeEncryptedTransaction,
};
use tx_orderer::types::raw_epoch_transaction::{
    batch_transaction_hash, EthRawEpochBundleTransaction, EthRawEpochTransaction, RawEpochTransaction,
};
use tx_orderer::types::raw_transaction::{Batch, EthRawTransaction, RawTransaction};
use tx_orderer::types::rollup::{
    EncryptedTransactionType, LivenessServiceProvider, OrderCommitmentType, Platform, Rollup,
    RollupId, RollupType, ValidationInfo, ValidationServiceInfo,
};
use tx_orderer::types::rollup_metadata::RollupMetadata;

const MAINNET_TX: &str = "f8aa808512ec276caf83010e2b94dac17f958d2ee523a2206206994597c13d831ec780b844a9059cbb000000000000000000000000fdae129ecc2c27d166a3131098bc05d143fa258e0000000000000000000000000000000000000000000000000000000002faf08025a0c81e70f9e49e0d3b854720143e86d172fecc9e76ef8a8666f2fdc017017c5141a01dd3410180f6a6ca3e25ad3058789cd0df3321ed76b5b4dbe0a2bb2dc28ae274";
const MAINNET_TX_HASH: &str = "0x929ff27a5c7833953df23103c4eb55ebdfb698678139d751c51932163877fada";

fn address(byte: u8) -> Address {
    Address([byte; 20])
}

fn info(byte: u8, external: Option<&str>, cluster: Option<&str>) -> TxOrdererRpcInfo {
    TxOrdererRpcInfo {
        tx_orderer_address: address(byte),
        external_rpc_url: external.map(|u| u.to_string()),
        cluster_rpc_url: cluster.map(|u| u.to_string()),
    }
}

fn cluster(own: u8) -> Cluster {
    Cluster {
        tx_orderer_address: address(own),
        tx_orderer_rpc_infos: vec![
            (0, info(1, Some("http://one"), Some("http://one-cluster"))),
            (1, info(2, Some("http://two"), Some("http://two-cluster"))),
            (2, info(3, None, Some("http://three-cluster"))),
        ],
    }
}

fn message(current: u8, next: u8) -> LeaderChangeMessage {
    LeaderChangeMessage {
        rollup_id: "rollup".to_string(),
        executor_address: address(9),
        platform_block_height: 200,
        current_leader_tx_orderer_address: address(current),
        next_leader_tx_orderer_address: address(next),
    }
}

fn batch(number: u64, texts: &[&str]) -> Batch {
    Batch::new(
        number,
        vec![],
        texts.iter().map(|t| RawTransaction::Eth(EthRawTransaction(t.to_string()))).collect(),
        [0u8; 32],
        Address([0u8; 20]),
        Signature(vec![]),
    )
}

fn fetch(_: &RollupId, batch: u64, order: u64) -> Result<RawTransaction, String> {
    if order == 6 {
        Err(format!("missing {batch}/{order}"))
    } else {
        Ok(RawTransaction::Eth(EthRawTransaction(format!("{batch}-{order}"))))
    }
}

fn rollup(mempool: EncryptedTransactionType) -> Rollup {
    Rollup::new(
        "rollup".to_string(),
        RollupType::PolygonCdk,
        mempool,
        address(5),
        ValidationInfo::Symbiotic(ValidationServiceInfo {
            platform: Platform::Ethereum,
            validation_service_manager: address(6),
        }),
        OrderCommitmentType::Sign,
        vec![],
        "cluster".to_string(),
        Platform::Ethereum,
        LivenessServiceProvider::Radius,
    )
}

fn rollup_metadata(batch_number: u64, transaction_order: u64) -> RollupMetadata {
    let mut metadata = RollupMetadata::default();
    metadata.batch_number = batch_number;
    metadata.transaction_order = transaction_order;
    metadata.max_transaction_count_per_batch = 10;
    metadata
}

#[test]
fn leader_change_to_the_current_leader_syncs_nobody() {
    let cluster = cluster(1);
    assert!(plan_leader_change_sync(&cluster, &message(2, 2)).unwrap().is_none());
    let plan = plan_leader_change_sync(&cluster, &message(1, 2)).unwrap().unwrap();
    assert_eq!(plan.next_leader_cluster_rpc_url, "http://two-cluster");
    assert_eq!(plan.other_cluster_rpc_urls, vec!["http://three-cluster".to_string()]);
    assert!(plan_leader_change_sync(&cluster, &message(1, 8)).unwrap().is_none());
    let alone = Cluster {
        tx_orderer_address: address(1),
        tx_orderer_rpc_infos: vec![(0, info(1, None, Some("http://one-cluster")))],
    };
    assert!(matches!(plan_leader_change_sync(&alone, &message(1, 1)), Err(Error::NoClusterRpcUrl)));
}

#[test]
fn unprovided_transactions_run_from_the_old_to_the_new_position() {
    let rollup_id: RollupId = "rollup".to_string();
    let batches = vec![batch(3, &["a", "b", "c"]), batch(4, &["d"])];
    let orders: BTreeSet<u64> = [0, 1, 2, 4].into_iter().collect();
    let (list, batch_number, order) =
        unprovided_transactions(&rollup_id, batches, 3, 0, Some(&orders), 10, fetch).unwrap();
    assert_eq!(list, vec!["b", "c", "d", "5-0", "5-1", "5-2"]);
    assert_eq!((batch_number, order), (5, 2));

    let (list, batch_number, order) =
        unprovided_transactions(&rollup_id, vec![], 5, 2, None, 10, fetch).unwrap();
    assert!(list.is_empty());
    assert_eq!((batch_number, order), (5, 2));

    let full: BTreeSet<u64> = (0..10).collect();
    let (list, batch_number, order) =
        unprovided_transactions(&rollup_id, vec![], 7, 7, Some(&full), 10, fetch).unwrap();
    assert_eq!(list, vec!["7-8", "7-9"]);
    assert_eq!((batch_number, order), (8, -1));

    let gap: BTreeSet<u64> = (0..8).collect();
    assert_eq!(
        unprovided_transactions(&rollup_id, vec![], 7, 4, Some(&gap), 10, fetch),
        Err("missing 7/6".to_string())
    );
}

#[test]
fn backrunning_transactions_follow_the_list() {
    let mut list = vec!["a".to_string()];
    append_backrunning_transactions(
        &mut list,
        vec![vec!["b".to_string(), "c".to_string()], vec![], vec!["d".to_string()]],
    );
    assert_eq!(list, vec!["a", "b", "c", "d"]);
}

#[test]
fn encrypted_transactions_are_placed_on_the_leader_and_forwarded_otherwise() {
    let skde = EncryptedTransaction::Skde(SkdeEncryptedTransaction { payload: "s".to_string() });
    let pvde = EncryptedTransaction::Pvde(PvdeEncryptedTransaction { payload: "p".to_string() });
    let mut leader = ClusterMetadata::new("cluster".to_string(), 1);
    leader.is_leader = true;

    let mut metadata = rollup_metadata(4, 8);
    let route = route_encrypted_transaction(&rollup(EncryptedTransactionType::Skde), &leader, &mut metadata, &skde);
    assert!(matches!(
        route,
        Ok(EncryptedTransactionRoute::Leader { batch_number: 4, transaction_order: 8, batch_completed: false })
    ));
    assert_eq!((metadata.batch_number, metadata.transaction_order), (4, 9));
    let route = route_encrypted_transaction(&rollup(EncryptedTransactionType::Skde), &leader, &mut metadata, &skde);
    assert!(matches!(
        route,
        Ok(EncryptedTransactionRoute::Leader { batch_number: 4, transaction_order: 9, batch_completed: true })
    ));
    assert_eq!((metadata.batch_number, metadata.transaction_order), (5, 0));

    let route = route_encrypted_transaction(&rollup(EncryptedTransactionType::Skde), &leader, &mut metadata, &pvde);
    assert!(matches!(route, Err(Error::UnsupportedEncryptedMempool)));
    assert_eq!((metadata.batch_number, metadata.transaction_order), (5, 0));

    let mut follower = ClusterMetadata::new("cluster".to_string(), 1);
    let route = route_encrypted_transaction(&rollup(EncryptedTransactionType::Pvde), &follower, &mut metadata, &pvde);
    assert!(matches!(route, Err(Error::EmptyLeader)));
    follower.leader_tx_orderer_rpc_info = Some(info(3, None, Some("http://three-cluster")));
    let route = route_encrypted_transaction(&rollup(EncryptedTransactionType::Pvde), &follower, &mut metadata, &pvde);
    assert!(matches!(route, Err(Error::EmptyLeaderClusterRpcUrl)));
    follower.leader_tx_orderer_rpc_info = Some(info(2, Some("http://two"), None));
    match route_encrypted_transaction(&rollup(EncryptedTransactionType::Pvde), &follower, &mut metadata, &pvde) {
        Ok(EncryptedTransactionRoute::Forward { leader_external_rpc_url }) => {
            assert_eq!(leader_external_rpc_url, "http://two")
        },
        other => panic!("unexpected route {other:?}"),
    }
    assert_eq!((metadata.batch_number, metadata.transaction_order), (5, 0));
}

#[test]
fn epoch_counts_list_every_epoch_with_a_counter_in_order() {
    let mut counters = AtomicEpochMetadata::new();
    assert!(counters.epoch_transaction_counts().is_empty());
    for epoch in [9u64, 2, 9, 5, 9] {
        counters.issue_transaction_order(epoch);
    }
    assert_eq!(counters.epoch_transaction_counts(), vec![(2, 1), (5, 1), (9, 3)]);
}

#[test]
fn batch_transaction_hash_is_the_prefixed_hex_of_the_decoded_hash() {
    let transaction = RawTransaction::Eth(EthRawTransaction(MAINNET_TX.to_string()));
    assert_eq!(batch_transaction_hash(&transaction), Some(MAINNET_TX_HASH.to_string()));
    let garbage = RawTransaction::Eth(EthRawTransaction("zz".to_string()));
    assert_eq!(batch_transaction_hash(&garbage), None);
}

#[test]
fn bundle_text_survives_the_json_round_trip() {
    let bundle = EthRawEpochBundleTransaction(MAINNET_TX.to_string());
    let decoded = bundle.rollup_transaction().unwrap();
    assert_eq!(const_hex::encode_prefixed(decoded.hash), MAINNET_TX_HASH);
    let quoted = EthRawEpochBundleTransaction("a \"quoted\"\n\\ text".to_string());
    assert!(matches!(quoted.rollup_transaction(), Err(Error::InvalidTransaction)));
}

#[test]
fn sequencing_is_refused_where_it_cannot_be_done() {
    let mut counters = AtomicEpochMetadata::new();
    let request = SendRawTransaction {
        rollup_id: "rollup".to_string(),
        raw_transaction: RawEpochTransaction::Eth(EthRawEpochTransaction {
            raw_transaction: "zz".to_string(),
            epoch: Some(1),
        }),
        sender_address: None,
    };
    assert!(checked_sequence_as_leader(&mut counters, &cluster(1), &request, 1).is_none());
    assert_eq!(counters.transaction_order(1), 0);

    let good = SendRawTransaction {
        rollup_id: "rollup".to_string(),
        raw_transaction: RawEpochTransaction::Eth(EthRawEpochTransaction {
            raw_transaction: MAINNET_TX.to_string(),
            epoch: Some(1),
        }),
        sender_address: Some(address(2)),
    };
    let mut crowded = cluster(1);
    crowded.tx_orderer_rpc_infos.push((usize::MAX, info(4, None, None)));
    assert!(checked_sequence_as_leader(&mut counters, &crowded, &good, 1).is_none());
    let sequenced = checked_sequence_as_leader(&mut counters, &cluster(1), &good, 1).unwrap().unwrap();
    assert_eq!((sequenced.epoch, sequenced.transaction_order), (1, 0));
    assert_eq!(sequenced.transaction_hash.as_string(), MAINNET_TX_HASH);
    assert_eq!(counters.received_transaction_count(1, 1), 1);
}

#[test]
fn epoch_without_leader_is_refused_even_with_a_full_forward_count() {
    let mut metadata = ClusterMetadata::new("cluster".to_string(), 100);
    metadata.epoch = 5;
    metadata.epoch_sent_transaction_count.insert(3, u64::MAX);
    let mut request = SendRawTransaction {
        rollup_id: "rollup".to_string(),
        raw_transaction: RawEpochTransaction::Eth(EthRawEpochTransaction {
            raw_transaction: MAINNET_TX.to_string(),
            epoch: Some(3),
        }),
        sender_address: None,
    };
    let route = route_raw_transaction(&mut metadata, &mut request, &address(1));
    assert!(matches!(route, Err(Error::NoEpochLeader)));
    assert_eq!(metadata.epoch_sent_transaction_count.get(&3), Some(&u64::MAX));

    metadata.epoch_leader_map.insert(3, address(1));
    let route = route_raw_transaction(&mut metadata, &mut request, &address(1));
    assert!(matches!(route, Ok(RawTransactionRoute::Leader { epoch: 3 })));
}

#[test]
fn successive_list_requests_never_hand_out_a_position_twice() {
    let rollup_id: RollupId = "rollup".to_string();
    let first_orders: BTreeSet<u64> = [0, 1].into_iter().collect();
    let (first, batch_number, order) =
        unprovided_transactions(&rollup_id, vec![batch(3, &["a", "b"])], 3, -1, Some(&first_orders), 10, fetch)
            .unwrap();
    assert_eq!(first, vec!["a", "b", "4-0", "4-1"]);
    assert_eq!((batch_number, order), (4, 1));
    let second_orders: BTreeSet<u64> = [0, 1, 2, 3].into_iter().collect();
    let (second, batch_number, order) =
        unprovided_transactions(&rollup_id, vec![], batch_number, order, Some(&second_orders), 10, fetch).unwrap();
    assert_eq!(second, vec!["4-2", "4-3"]);
    assert_eq!((batch_number, order), (4, 3));
    let (third, batch_number, order) =
        unprovided_transactions(&rollup_id, vec![], batch_number, order, Some(&second_orders), 10, fetch).unwrap();
    assert!(third.is_empty());
    assert_eq!((batch_number, order), (4, 3));
}

#[test]
fn only_forwarded_transactions_count_as_redirects() {
    let mut ring = RedirectRing::new();
    count_redirect(&mut ring, &RawTransactionRoute::Leader { epoch: 7 });
    assert_eq!(ring.get(7), 0);
    count_redirect(&mut ring, &RawTransactionRoute::Forward { epoch: 7, leader_address: Some(address(2)) });
    count_redirect(&mut ring, &RawTransactionRoute::Forward { epoch: 7, leader_address: None });
    assert_eq!(ring.get(7), 2);
    count_redirect(&mut ring, &RawTransactionRoute::Forward { epoch: 7 + 4096, leader_address: None });
    assert_eq!(ring.get(7), 0);
    assert_eq!(ring.get(7 + 4096), 1);
}

#[test]
fn errors_carry_their_messages() {
    assert_eq!(
        Error::NoEpochLeader.message(),
        "No leader registered for this transaction epoch in cluster metadata"
    );
    assert_eq!(Error::SenderNotInCluster.message(), "Sender address not found in cluster");
    assert_eq!(Error::NotEpochLeader.message(), "Not a leader node");
    assert_eq!(Error::NoClusterRpcUrl.message(), "No cluster RPC URLs available for synchronization");
    assert_eq!(Error::ClusterRpcUrlNotFound.message(), "Cluster RPC URL not found");
    assert_eq!(Error::EpochLeaderAddressNotFound.message(), "epoch_leader_address not found");
    assert_eq!(Error::EpochLeaderClusterRpcUrlNotFound.message(), "epoch leader cluster_rpc_url not found");
}
