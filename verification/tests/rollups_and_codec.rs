use sha3::{Digest, Keccak256};

use tx_orderer::client::reward_manager::{reward_data_lists, DistributionData};
use tx_orderer::codec::HexDecodeError;
use tx_orderer::error::Error;
use tx_orderer::rpc::cluster::get_digest::{batch_digest_positions, digest_of_hashes, epoch_digest_positions};
use tx_orderer::types::address::Address;
use tx_orderer::types::config_path::ConfigPath;
use tx_orderer::types::raw_epoch_transaction::{
    decode_rlp_transaction, EthRawEpochTransaction, RawEpochTransaction, RawEpochTransactionHash,
};
use tx_orderer::types::rollup::RollupIdList;
use tx_orderer::util::{compare_texts, TextOrder};

const MAINNET_TX: &str = "f8aa808512ec276caf83010e2b94dac17f958d2ee523a2206206994597c13d831ec780b844a9059cbb000000000000000000000000fdae129ecc2c27d166a3131098bc05d143fa258e0000000000000000000000000000000000000000000000000000000002faf08025a0c81e70f9e49e0d3b854720143e86d172fecc9e76ef8a8666f2fdc017017c5141a01dd3410180f6a6ca3e25ad3058789cd0df3321ed76b5b4dbe0a2bb2dc28ae274";
const MAINNET_TX_HASH: &str = "0x929ff27a5c7833953df23103c4eb55ebdfb698678139d751c51932163877fada";

#[test]
fn rollup_ids_stay_sorted_and_unique() {
    let mut list = RollupIdList::new();
    list.insert("rollup_b");
    list.insert("rollup_a");
    list.insert("rollup_c");
    list.insert("rollup_a");
    assert_eq!(list.iter(), vec!["rollup_a", "rollup_b", "rollup_c"]);
    list.remove("rollup_b");
    list.remove("rollup_x");
    assert_eq!(list.iter(), vec!["rollup_a", "rollup_c"]);
    list.set(vec!["z".to_string(), "Z".to_string(), "é".to_string(), "z".to_string(), "".to_string()]);
    assert_eq!(list.iter(), vec!["", "Z", "z", "é"]);
}

#[test]
fn texts_compare_by_their_bytes() {
    assert_eq!(compare_texts("abc", "abd"), TextOrder::Before);
    assert_eq!(compare_texts("ab", "abc"), TextOrder::Before);
    assert_eq!(compare_texts("abc", "abc"), TextOrder::Same);
    assert_eq!(compare_texts("b", "abc"), TextOrder::After);
    assert_eq!(compare_texts("é", "z"), TextOrder::After);
}

#[test]
fn raw_transaction_hash_and_gas_come_from_the_rlp() {
    let transaction = RawEpochTransaction::Eth(EthRawEpochTransaction::from_raw(MAINNET_TX.to_string()));
    assert_eq!(transaction.raw_transaction_hash().as_str(), MAINNET_TX_HASH);
    assert_eq!(transaction.get_transaction_gas_limit(), Ok(0x10e2b));
    let prefixed = RawEpochTransaction::Eth(EthRawEpochTransaction::from_raw(format!("0x{MAINNET_TX}")));
    assert_eq!(prefixed.raw_transaction_hash().as_str(), MAINNET_TX_HASH);
    let broken = RawEpochTransaction::Eth(EthRawEpochTransaction::from_raw("0x1234".to_string()));
    assert!(broken.checked_raw_transaction_hash().is_none());
    assert_eq!(broken.get_transaction_gas_limit(), Err(Error::InvalidTransaction));
    let decoded = decode_rlp_transaction(MAINNET_TX).unwrap();
    assert_eq!(decoded.gas, [0x10e2b, 0, 0, 0]);
    assert!(decode_rlp_transaction("zz").is_none());
}

#[test]
fn hash_bytes_read_back() {
    let mut bytes = [0u8; 32];
    for (i, b) in bytes.iter_mut().enumerate() {
        *b = (i * 7) as u8;
    }
    let hash = RawEpochTransactionHash::from_bytes(bytes);
    assert_eq!(hash.as_str(), format!("0x{}", hex_of(&bytes)));
    assert_eq!(hash.as_bytes(), Ok(bytes));
    let zero = RawEpochTransactionHash::default();
    assert_eq!(zero.as_str(), format!("0x{}", "0".repeat(64)));
    assert_eq!(RawEpochTransactionHash::new(b"ab").as_str(), "0x6162");
}

#[test]
fn hash_decoding_errors() {
    assert_eq!(RawEpochTransactionHash::from_string("0x123".to_string()).as_bytes(), Err(HexDecodeError::OddLength));
    assert_eq!(RawEpochTransactionHash::from_string("0x1234".to_string()).as_bytes(), Err(HexDecodeError::InvalidStringLength));
    let bad = format!("0x{}zz", "0".repeat(62));
    assert!(matches!(
        RawEpochTransactionHash::from_string(bad).as_bytes(),
        Err(HexDecodeError::InvalidHexCharacter { .. })
    ));
    let upper = "AB".repeat(32);
    assert_eq!(RawEpochTransactionHash::from_string(upper).as_bytes(), Ok([0xab; 32]));
}

fn hex_of(bytes: &[u8]) -> String {
    bytes.iter().map(|b| format!("{b:02x}")).collect()
}

#[test]
fn digest_positions_follow_batches_and_epochs() {
    assert_eq!(batch_digest_positions(2, 1, 2), vec![(0, 0), (0, 1), (1, 0), (1, 1), (2, 0)]);
    assert_eq!(batch_digest_positions(0, 0, 5), Vec::<(u64, u64)>::new());
    assert_eq!(epoch_digest_positions(&vec![(9, 2), (4, 0), (5, 1)]), vec![(9, 0), (9, 1), (5, 0)]);
}

#[test]
fn digest_is_keccak_over_the_concatenated_hashes() {
    let hashes = vec![[1u8; 32], [2u8; 32], [3u8; 32]];
    let (digest, count) = digest_of_hashes(&hashes);
    let mut hasher = Keccak256::new();
    for hash in &hashes {
        hasher.update(hash);
    }
    let expected: [u8; 32] = hasher.finalize().into();
    assert_eq!(digest, expected);
    assert_eq!(count, 3);
    let (empty, none) = digest_of_hashes(&vec![]);
    assert_eq!(hex_of(&empty), "c5d2460186f7233c927e7db2dcc703c0e500b653ca82273b7bfad8045d85a470");
    assert_eq!(none, 0);
}

#[test]
fn reward_data_is_split_per_field() {
    let data = vec![
        DistributionData { vault_address: Address([1; 20]), operator_merkle_root: [2; 32], total_staker_reward: 3, total_operator_reward: 4 },
        DistributionData { vault_address: Address([5; 20]), operator_merkle_root: [6; 32], total_staker_reward: 7, total_operator_reward: 8 },
    ];
    let (index, vaults, roots, stakers, operators) = reward_data_lists(11, &data);
    assert_eq!(index, 11);
    assert_eq!(vaults, vec![Address([1; 20]), Address([5; 20])]);
    assert_eq!(roots, vec![[2; 32], [6; 32]]);
    assert_eq!(stakers, vec![3, 7]);
    assert_eq!(operators, vec![4, 8]);
    let (index, vaults, roots, stakers, operators) = reward_data_lists(0, &vec![]);
    assert_eq!(index, 0);
    assert!(vaults.is_empty() && roots.is_empty() && stakers.is_empty() && operators.is_empty());
}

#[test]
fn config_path_prints_its_path() {
    let path = ConfigPath { path: "/home/node/.tx_orderer".to_string() };
    assert_eq!(path.to_string(), "/home/node/.tx_orderer");
}
