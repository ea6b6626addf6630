use tx_orderer::error::Error;
use tx_orderer::rpc::external::send_raw_transaction::{
    forward_target_url, leader_order_commitment, redirected_response, route_raw_transaction,
    sequence_as_leader, RawTransactionRoute, SendRawTransaction,
    SendRawTransactionClusterMetadataTimings, SendRawTransactionClusterUpdateTimings,
    SendRawTransactionEpochMetadataTimings, SendRawTransactionEpochUpdateTimings,
    SendRawTransactionHandlerTimings, SendRawTransactionIssueOCTimings,
    SendRawTransactionMerkleTimings, SendRawTransactionOCPutTimings,
    SendRawTransactionRedirectRpcTimings, SendRawTransactionResponse,
    SendRawTransactionSignerTimings, SendRawTransactionSyncEpochTXTimings,
    SendRawTransactionTXPutTimings,
};
use tx_orderer::types::address::{Address, Signature};
use tx_orderer::types::atomic_epoch_metadata::AtomicEpochMetadata;
use tx_orderer::types::cluster_metadata::{Cluster, ClusterMetadata, TxOrdererRpcInfo};
use tx_orderer::types::order_commitment::{
    OrderCommitment, OrderCommitmentData, SignOrderCommitment, SingleOrderCommitment,
};
use tx_orderer::types::raw_epoch_transaction::{
    EthRawEpochBundleTransaction, EthRawEpochTransaction, RawEpochTransaction,
    RawEpochTransactionHash,
};
use tx_orderer::types::rollup::OrderCommitmentType;

const MAINNET_TX: &str = "f8aa808512ec276caf83010e2b94dac17f958d2ee523a2206206994597c13d831ec780b844a9059cbb000000000000000000000000fdae129ecc2c27d166a3131098bc05d143fa258e0000000000000000000000000000000000000000000000000000000002faf08025a0c81e70f9e49e0d3b854720143e86d172fecc9e76ef8a8666f2fdc017017c5141a01dd3410180f6a6ca3e25ad3058789cd0df3321ed76b5b4dbe0a2bb2dc28ae274";
const MAINNET_TX_HASH: &str = "0x929ff27a5c7833953df23103c4eb55ebdfb698678139d751c51932163877fada";

fn address(byte: u8) -> Address {
    Address([byte; 20])
}

fn info(byte: u8, external: Option<&str>, cluster: Option<&str>) -> TxOrdererRpcInfo {
    TxOrdererRpcInfo {
        tx_orderer_address: address(byte),
        external_rpc_url: external.map(|u| u.to_string()),
        cluster_rpc_url: cluster.map(|u| u.to_string()),
    }
}

fn cluster(own: u8) -> Cluster {
    Cluster {
        tx_orderer_address: address(own),
        tx_orderer_rpc_infos: vec![
            (0, info(1, Some("http://one"), Some("http://one-cluster"))),
            (1, info(2, Some("http://two"), Some("http://two-cluster"))),
            (2, info(3, None, Some("http://three-cluster"))),
        ],
    }
}

fn metadata_at(epoch: u64) -> ClusterMetadata {
    let mut metadata = ClusterMetadata::new("cluster".to_string(), 100);
    metadata.epoch = epoch;
    metadata
}

fn client_request(epoch: Option<u64>) -> SendRawTransaction {
    SendRawTransaction {
        rollup_id: "rollup".to_string(),
        raw_transaction: RawEpochTransaction::Eth(EthRawEpochTransaction {
            raw_transaction: MAINNET_TX.to_string(),
            epoch,
        }),
        sender_address: None,
    }
}

fn epoch_of(request: &SendRawTransaction) -> Option<u64> {
    match &request.raw_transaction {
        RawEpochTransaction::Eth(eth) => eth.epoch,
        RawEpochTransaction::EthBundle(_) => None,
    }
}

#[test]
fn client_transaction_is_stamped_and_sequenced_by_the_leader() {
    let mut metadata = metadata_at(5);
    metadata.epoch_leader_map.insert(5, address(1));
    let mut request = client_request(None);
    let route = route_raw_transaction(&mut metadata, &mut request, &address(1));
    assert!(matches!(route, Ok(RawTransactionRoute::Leader { epoch: 5 })));
    assert_eq!(epoch_of(&request), Some(5));
    assert_eq!(request.sender_address, None);
    assert!(metadata.epoch_sent_transaction_count.is_empty());
}

#[test]
fn follower_forwards_to_the_epoch_leader() {
    let mut metadata = metadata_at(5);
    metadata.epoch_leader_map.insert(5, address(2));
    let mut request = client_request(None);
    let route = route_raw_transaction(&mut metadata, &mut request, &address(1));
    match route {
        Ok(RawTransactionRoute::Forward { epoch, leader_address }) => {
            assert_eq!(epoch, 5);
            assert_eq!(leader_address, Some(address(2)));
        },
        _ => panic!("expected a forward"),
    }
    assert_eq!(epoch_of(&request), Some(5));
    assert_eq!(request.sender_address, Some(address(1)));
    assert_eq!(metadata.epoch_sent_transaction_count.get(&5), Some(&1));
    let mut again = client_request(None);
    route_raw_transaction(&mut metadata, &mut again, &address(1)).unwrap();
    assert_eq!(metadata.epoch_sent_transaction_count.get(&5), Some(&2));
}

#[test]
fn later_epoch_makes_this_node_provisional_leader() {
    let mut metadata = metadata_at(5);
    metadata.epoch_leader_map.insert(5, address(2));
    let mut request = client_request(Some(7));
    let route = route_raw_transaction(&mut metadata, &mut request, &address(1));
    assert!(matches!(route, Ok(RawTransactionRoute::Leader { epoch: 7 })));
    assert_eq!(metadata.epoch_leader_map.get(&7), Some(&address(1)));
    assert_eq!(epoch_of(&request), Some(7));
}

#[test]
fn leader_change_overrides_the_provisional_leader() {
    let mut metadata = metadata_at(5);
    metadata.epoch_leader_map.insert(5, address(2));
    let mut request = client_request(Some(6));
    route_raw_transaction(&mut metadata, &mut request, &address(1)).unwrap();
    assert_eq!(metadata.epoch_leader_map.get(&6), Some(&address(1)));
    let mismatch = metadata.apply_leader_change(
        101,
        false,
        info(3, None, Some("http://three-cluster")),
        5,
        6,
        address(2),
        address(3),
    );
    assert!(mismatch);
    assert_eq!(metadata.epoch_leader_map.get(&6), Some(&address(3)));
    assert_eq!(metadata.epoch_leader_map.get(&5), Some(&address(2)));
    assert_eq!(metadata.epoch, 6);
}

#[test]
fn epoch_without_leader_is_refused_and_nothing_changes() {
    let mut metadata = metadata_at(5);
    let mut request = client_request(Some(3));
    let route = route_raw_transaction(&mut metadata, &mut request, &address(1));
    assert!(matches!(route, Err(Error::NoEpochLeader)));
    assert!(metadata.epoch_leader_map.is_empty());
    assert!(metadata.epoch_sent_transaction_count.is_empty());
    assert_eq!(epoch_of(&request), Some(3));
    assert_eq!(request.sender_address, None);

    let mut client = client_request(None);
    assert!(matches!(
        route_raw_transaction(&mut metadata, &mut client, &address(1)),
        Err(Error::NoEpochLeader)
    ));
    assert_eq!(epoch_of(&client), None);
}

#[test]
fn bundles_follow_the_cluster_leader_flag() {
    let bundle = || SendRawTransaction {
        rollup_id: "rollup".to_string(),
        raw_transaction: RawEpochTransaction::EthBundle(EthRawEpochBundleTransaction(
            MAINNET_TX.to_string(),
        )),
        sender_address: None,
    };
    let mut leading = metadata_at(4);
    leading.is_leader = true;
    let mut request = bundle();
    assert!(matches!(
        route_raw_transaction(&mut leading, &mut request, &address(1)),
        Ok(RawTransactionRoute::Leader { epoch: 4 })
    ));
    let mut following = metadata_at(4);
    let mut request = bundle();
    assert!(matches!(
        route_raw_transaction(&mut following, &mut request, &address(1)),
        Ok(RawTransactionRoute::Forward { epoch: 4, leader_address: None })
    ));
    assert_eq!(following.epoch_sent_transaction_count.get(&4), Some(&1));
}

#[test]
fn forward_target_prefers_the_epoch_leader() {
    let cluster = cluster(1);
    let mut metadata = metadata_at(5);
    metadata.leader_tx_orderer_rpc_info = Some(info(9, Some("http://current"), None));
    assert_eq!(forward_target_url(&cluster, &metadata, &Some(address(2))).unwrap(), "http://two");
    assert_eq!(forward_target_url(&cluster, &metadata, &Some(address(8))).unwrap(), "http://current");
    assert_eq!(forward_target_url(&cluster, &metadata, &None).unwrap(), "http://current");
    assert!(matches!(
        forward_target_url(&cluster, &metadata, &Some(address(3))),
        Err(Error::EmptyLeaderClusterRpcUrl)
    ));
    metadata.leader_tx_orderer_rpc_info = None;
    assert!(matches!(forward_target_url(&cluster, &metadata, &None), Err(Error::EmptyLeader)));
}

#[test]
fn leader_issues_orders_and_counts_forwarded_transactions() {
    let cluster = cluster(1);
    let mut counters = AtomicEpochMetadata::new();
    let request = client_request(Some(5));
    let first = sequence_as_leader(&mut counters, &cluster, &request, 5).unwrap();
    assert_eq!(first.epoch, 5);
    assert_eq!(first.transaction_order, 0);
    assert_eq!(first.transaction_hash.as_str(), MAINNET_TX_HASH);

    let mut forwarded = client_request(Some(5));
    forwarded.sender_address = Some(address(3));
    let second = sequence_as_leader(&mut counters, &cluster, &forwarded, 5).unwrap();
    assert_eq!(second.transaction_order, 1);
    assert_eq!(counters.received_transaction_count(5, 2), 1);
    assert_eq!(counters.received_transaction_count(5, 0), 0);

    let mut stranger = client_request(Some(5));
    stranger.sender_address = Some(address(7));
    assert!(matches!(
        sequence_as_leader(&mut counters, &cluster, &stranger, 5),
        Err(Error::SenderNotInCluster)
    ));
    assert_eq!(counters.transaction_order(5), 2);
}

#[test]
fn client_transaction_without_epoch_takes_the_cluster_epoch_on_the_leader() {
    let cluster = cluster(1);
    let mut counters = AtomicEpochMetadata::new();
    let request = client_request(None);
    let sequenced = sequence_as_leader(&mut counters, &cluster, &request, 8).unwrap();
    assert_eq!(sequenced.epoch, 8);
    assert_eq!(counters.transaction_order(8), 1);
}

#[test]
fn response_commitment_follows_the_rollup_type() {
    let hash = RawEpochTransactionHash::from_string(MAINNET_TX_HASH.to_string());
    let issued = OrderCommitment::Single(SingleOrderCommitment::Sign(SignOrderCommitment {
        data: OrderCommitmentData::default(),
        signature: Signature(vec![1, 2, 3]),
    }));
    match leader_order_commitment(OrderCommitmentType::TransactionHash, hash, issued.clone()) {
        OrderCommitment::Single(SingleOrderCommitment::TransactionHash(commitment)) => {
            assert_eq!(commitment.0, MAINNET_TX_HASH)
        },
        _ => panic!("expected a hash commitment"),
    }
    let hash = RawEpochTransactionHash::from_string(MAINNET_TX_HASH.to_string());
    match leader_order_commitment(OrderCommitmentType::Sign, hash, issued) {
        OrderCommitment::Single(SingleOrderCommitment::Sign(commitment)) => {
            assert_eq!(commitment.signature.0, vec![1, 2, 3])
        },
        _ => panic!("expected the signed commitment"),
    }
}

fn timings(start_ms: u128) -> SendRawTransactionResponse {
    SendRawTransactionResponse {
        order_commitment: OrderCommitment::default(),
        redirect: false,
        handler_timings: SendRawTransactionHandlerTimings { start_ms, end_ms: start_ms + 1 },
        cluster_metadata_timings: SendRawTransactionClusterMetadataTimings { start_ms, end_ms: start_ms + 2 },
        epoch_metadata_timings: SendRawTransactionEpochMetadataTimings { start_ms, end_ms: start_ms + 3 },
        epoch_update_timings: SendRawTransactionEpochUpdateTimings { start_ms, end_ms: start_ms + 4 },
        signer_timings: SendRawTransactionSignerTimings { start_ms, end_ms: start_ms + 5 },
        redirect_rpc_timings: None,
        leader_cluster_metadata_timings: None,
        cluster_update_timings: SendRawTransactionClusterUpdateTimings { start_ms, end_ms: start_ms + 6 },
        leader_cluster_update_timings: None,
        issue_order_commitment_timings: SendRawTransactionIssueOCTimings { start_ms, end_ms: start_ms + 7 },
        merkle_timings: SendRawTransactionMerkleTimings { start_ms, end_ms: start_ms + 8 },
        TX_put_timings: SendRawTransactionTXPutTimings { start_ms, end_ms: start_ms + 9 },
        OC_put_timings: SendRawTransactionOCPutTimings { start_ms, end_ms: start_ms + 10 },
        sync_epoch_TX_timings: SendRawTransactionSyncEpochTXTimings { start_ms, end_ms: start_ms + 11 },
    }
}

#[test]
fn redirected_response_mixes_leader_and_local_timings() {
    let leader = timings(1000);
    let response = redirected_response(
        leader,
        SendRawTransactionHandlerTimings { start_ms: 1, end_ms: 2 },
        SendRawTransactionClusterMetadataTimings { start_ms: 3, end_ms: 4 },
        SendRawTransactionSignerTimings { start_ms: 5, end_ms: 6 },
        SendRawTransactionRedirectRpcTimings { start_ms: 7, end_ms: 8 },
        SendRawTransactionClusterUpdateTimings { start_ms: 9, end_ms: 10 },
    );
    assert!(response.redirect);
    assert_eq!(response.handler_timings.end_ms, 2);
    assert_eq!(response.cluster_metadata_timings.end_ms, 4);
    assert_eq!(response.signer_timings.end_ms, 6);
    assert_eq!(response.redirect_rpc_timings.unwrap().end_ms, 8);
    assert_eq!(response.cluster_update_timings.end_ms, 10);
    assert_eq!(response.leader_cluster_metadata_timings.unwrap().end_ms, 1002);
    assert_eq!(response.leader_cluster_update_timings.unwrap().end_ms, 1006);
    assert_eq!(response.epoch_metadata_timings.end_ms, 1003);
    assert_eq!(response.epoch_update_timings.end_ms, 1004);
    assert_eq!(response.issue_order_commitment_timings.end_ms, 1007);
    assert_eq!(response.merkle_timings.end_ms, 1008);
    assert_eq!(response.TX_put_timings.end_ms, 1009);
    assert_eq!(response.OC_put_timings.end_ms, 1010);
    assert_eq!(response.sync_epoch_TX_timings.end_ms, 1011);
}
