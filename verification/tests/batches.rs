use std::collections::{BTreeSet, HashMap};

use tx_orderer::rpc::cluster::get_raw_transaction_list::{
    advance_provided_position, batch_numbers_to_delete, create_batches_from_epoch,
    extract_raw_transactions, fetch_and_append_transactions, get_consecutive_epochs,
    get_last_valid_transaction_order, provided_transactions_from_batches,
};
use tx_orderer::rpc::external::get_raw_transaction_list::batch_raw_transaction_list;
use tx_orderer::task::finalize_batch::{
    encrypted_transactions_to_fetch, get_encrypted_transaction_list, raw_transactions_of,
};
use tx_orderer::types::address::{Address, Signature};
use tx_orderer::types::encrypted_transaction::{EncryptedTransaction, PvdeEncryptedTransaction};
use tx_orderer::types::epoch_metadata::EpochMetadata;
use tx_orderer::types::raw_transaction::{Batch, EthRawBundleTransaction, EthRawTransaction, RawTransaction};
use tx_orderer::types::rollup::RollupId;
use tx_orderer::types::rollup_metadata::{CanProvideTransactionInfo, RollupMetadata};

fn batch(number: u64, texts: &[&str]) -> Batch {
    Batch::new(
        number,
        vec![],
        texts
            .iter()
            .enumerate()
            .map(|(i, t)| {
                if i % 2 == 0 {
                    RawTransaction::Eth(EthRawTransaction(t.to_string()))
                } else {
                    RawTransaction::EthBundle(EthRawBundleTransaction(t.to_string()))
                }
            })
            .collect(),
        [0u8; 32],
        Address([0u8; 20]),
        Signature(vec![]),
    )
}

#[test]
fn consecutive_completed_epochs_follow_the_last_batched() {
    let completed: BTreeSet<u64> = [1, 2, 3, 4, 5, 6, 7, 8, 10].into_iter().collect();
    assert_eq!(get_consecutive_epochs(&completed, 6), vec![7, 8]);
    assert_eq!(get_consecutive_epochs(&completed, 8), Vec::<u64>::new());
    assert_eq!(get_consecutive_epochs(&completed, 0), vec![1, 2, 3, 4, 5, 6, 7, 8]);
}

#[test]
fn last_valid_order_stops_at_the_first_gap() {
    let orders: BTreeSet<u64> = [0, 1, 2, 4].into_iter().collect();
    assert_eq!(get_last_valid_transaction_order(&orders, -1), 2);
    assert_eq!(get_last_valid_transaction_order(&orders, 1), 2);
    assert_eq!(get_last_valid_transaction_order(&orders, 3), 4);
    let later: BTreeSet<u64> = [5].into_iter().collect();
    assert_eq!(get_last_valid_transaction_order(&later, 2), 2);
}

#[test]
fn raw_texts_are_taken_from_a_start_order() {
    let b = batch(0, &["a", "b", "c"]);
    assert_eq!(extract_raw_transactions(b.clone(), 1), vec!["b".to_string(), "c".to_string()]);
    assert_eq!(extract_raw_transactions(b.clone(), 3), Vec::<String>::new());
    assert_eq!(batch_raw_transaction_list(b).raw_transaction_list, vec!["a", "b", "c"]);
}

#[test]
fn fetched_transactions_are_appended_until_an_error() {
    let rollup: RollupId = "rollup".to_string();
    let mut list = vec!["x".to_string()];
    let fetch = |_: &RollupId, batch: u64, order: u64| -> Result<RawTransaction, String> {
        if order == 3 {
            Err(format!("missing {batch}/{order}"))
        } else {
            Ok(RawTransaction::Eth(EthRawTransaction(format!("{batch}-{order}"))))
        }
    };
    assert!(fetch_and_append_transactions(&rollup, 7, 1, 2, &mut list, fetch).is_ok());
    assert_eq!(list, vec!["x", "7-1", "7-2"]);
    assert_eq!(fetch_and_append_transactions(&rollup, 7, 2, 4, &mut list, fetch), Err("missing 7/3".to_string()));
    assert_eq!(list, vec!["x", "7-1", "7-2", "7-2"]);
    assert!(fetch_and_append_transactions(&rollup, 7, 5, 4, &mut list, fetch).is_ok());
    assert_eq!(list.len(), 4);
}

#[test]
fn provided_transactions_continue_after_the_provided_position() {
    let batches = vec![batch(3, &["a", "b", "c"]), batch(4, &["d", "e"])];
    let (texts, batch_number, order) = provided_transactions_from_batches(batches, 3, 0);
    assert_eq!(texts, vec!["b", "c", "d", "e"]);
    assert_eq!((batch_number, order), (5, -1));
    let (texts, batch_number, order) = provided_transactions_from_batches(vec![], 3, 1);
    assert!(texts.is_empty());
    assert_eq!((batch_number, order), (3, 1));
}

#[test]
fn provided_position_moves_to_the_next_batch_when_full() {
    assert_eq!(advance_provided_position(2, 9, 10), (3, -1));
    assert_eq!(advance_provided_position(2, 4, 10), (2, 4));
    assert_eq!(batch_numbers_to_delete(3, 6), vec![3, 4, 5]);
    assert!(batch_numbers_to_delete(6, 6).is_empty());
    assert!(batch_numbers_to_delete(7, 6).is_empty());
}

#[test]
fn epochs_are_placed_in_batches_in_order() {
    let mut epoch_metadata = EpochMetadata::default();
    let mut rollup_metadata = RollupMetadata::default();
    rollup_metadata.batch_number = 2;
    rollup_metadata.transaction_order = 2;
    rollup_metadata.max_transaction_count_per_batch = 3;
    let placements = create_batches_from_epoch(
        &vec![7, 8, 9],
        &vec![2, 2, 5],
        &vec![true, true, false],
        &mut epoch_metadata,
        &mut rollup_metadata,
    );
    let got: Vec<(u64, u64, u64, u64, bool)> = placements
        .iter()
        .map(|p| (p.epoch, p.epoch_transaction_order, p.batch_number, p.batch_transaction_order, p.completes_batch))
        .collect();
    assert_eq!(
        got,
        vec![(7, 0, 2, 2, true), (7, 1, 3, 0, false), (8, 0, 3, 1, false), (8, 1, 3, 2, true)]
    );
    assert_eq!((rollup_metadata.batch_number, rollup_metadata.transaction_order), (4, 0));
    assert_eq!(epoch_metadata.last_batched_epoch, Some(8));
}

#[test]
fn nothing_is_placed_before_a_missing_epoch() {
    let mut epoch_metadata = EpochMetadata { last_batched_epoch: Some(6) };
    let mut rollup_metadata = RollupMetadata::default();
    rollup_metadata.max_transaction_count_per_batch = 3;
    let placements = create_batches_from_epoch(
        &vec![7, 8],
        &vec![2, 2],
        &vec![false, true],
        &mut epoch_metadata,
        &mut rollup_metadata,
    );
    assert!(placements.is_empty());
    assert_eq!(epoch_metadata.last_batched_epoch, Some(6));
    assert_eq!((rollup_metadata.batch_number, rollup_metadata.transaction_order), (0, 0));
}

#[test]
fn rollup_metadata_moves_to_the_next_batch_when_full() {
    let mut metadata = RollupMetadata::default();
    metadata.max_transaction_count_per_batch = 2;
    assert_eq!(metadata.issue_transaction_position(), (0, 0, false));
    assert_eq!(metadata.issue_transaction_position(), (0, 1, true));
    assert_eq!((metadata.batch_number, metadata.transaction_order), (1, 0));
    metadata.transaction_order = 2;
    assert!(metadata.check_and_update_batch_info());
    assert_eq!((metadata.batch_number, metadata.transaction_order), (2, 0));
    assert!(!metadata.check_and_update_batch_info());
}

#[test]
fn can_provide_orders_accumulate_and_are_removed_by_batch() {
    let mut info = CanProvideTransactionInfo::default();
    info.add_can_provide_transaction_orders(1, vec![0, 1]);
    info.add_can_provide_transaction_orders(1, vec![3]);
    info.add_can_provide_transaction_orders(2, vec![5]);
    info.add_can_provide_transaction_orders(3, vec![6]);
    let orders: BTreeSet<u64> = [0, 1, 3].into_iter().collect();
    assert_eq!(info.can_provide_transaction_orders_per_batch.get(&1), Some(&orders));
    info.remove_can_provide_transaction_orders(2);
    let left: HashMap<u64, BTreeSet<u64>> = info.can_provide_transaction_orders_per_batch.clone();
    assert_eq!(left.len(), 1);
    assert!(left.contains_key(&3));
}

#[test]
fn encrypted_transactions_are_looked_up_in_order() {
    let rollup: RollupId = "rollup".to_string();
    let lookup = |_: &RollupId, _batch: u64, order: u64| -> Result<Option<EncryptedTransaction>, String> {
        if order == 1 {
            Ok(None)
        } else if order == 5 {
            Err("broken store".to_string())
        } else {
            Ok(Some(EncryptedTransaction::Pvde(PvdeEncryptedTransaction { payload: format!("p{order}") })))
        }
    };
    let list = get_encrypted_transaction_list(&rollup, 2, 3, lookup).unwrap();
    assert_eq!(list.len(), 3);
    assert!(list[1].is_none());
    assert!(matches!(&list[2], Some(EncryptedTransaction::Pvde(p)) if p.payload == "p2"));
    assert_eq!(get_encrypted_transaction_list(&rollup, 2, 6, lookup).err(), Some("broken store".to_string()));

    let raw_info = vec![
        (RawTransaction::Eth(EthRawTransaction("a".to_string())), false),
        (RawTransaction::Eth(EthRawTransaction("b".to_string())), false),
        (RawTransaction::Eth(EthRawTransaction("c".to_string())), true),
    ];
    let with_gap = vec![list[0].clone(), None, None];
    assert_eq!(encrypted_transactions_to_fetch(&with_gap, &raw_info), vec![1]);
    let raw = raw_transactions_of(raw_info);
    let texts: Vec<String> = raw.into_iter().map(|t| t.into_data()).collect();
    assert_eq!(texts, vec!["a", "b", "c"]);
}
