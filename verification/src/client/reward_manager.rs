//! What the reward manager reports of a rollup's pending reward task, split
//! into the parallel lists the reward contracts take.

use vstd::prelude::*;

use crate::types::address::Address;

verus! {

/// How a reward is distributed to one vault.
#[derive(Clone, Copy, Debug)]
pub struct DistributionData {
    pub vault_address: Address,
    pub operator_merkle_root: [u8; 32],
    pub total_staker_reward: u64,
    pub total_operator_reward: u64,
}

/// The reward data of a task: its index, then the vault addresses, operator
/// Merkle roots, staker rewards and operator rewards of the distributions,
/// each list in the order of the distributions.
pub type RewardDataLists = (u64, Vec<Address>, Vec<[u8; 32]>, Vec<u64>, Vec<u64>);

/// Splits a task's distributions into parallel lists, one per field, in the
/// order of the distributions; all are empty when there is no distribution.
pub fn reward_data_lists(
    pending_reward_task_index: u64,
    distribution_data_list: &Vec<DistributionData>,
) -> (lists: RewardDataLists)
    ensures
        lists.0 == pending_reward_task_index,
        lists.1@.len() == distribution_data_list@.len(),
        lists.2@.len() == distribution_data_list@.len(),
        lists.3@.len() == distribution_data_list@.len(),
        lists.4@.len() == distribution_data_list@.len(),
        forall|i: int|
            0 <= i < distribution_data_list@.len() ==> {
                &&& #[trigger] lists.1@[i] == distribution_data_list@[i].vault_address
                &&& lists.2@[i] == distribution_data_list@[i].operator_merkle_root
                &&& lists.3@[i] == distribution_data_list@[i].total_staker_reward
                &&& lists.4@[i] == distribution_data_list@[i].total_operator_reward
            },
{
    let mut vault_address_list: Vec<Address> = Vec::new();
    let mut operator_merkle_root_list: Vec<[u8; 32]> = Vec::new();
    let mut total_staker_reward_list: Vec<u64> = Vec::new();
    let mut total_operator_reward_list: Vec<u64> = Vec::new();
    let mut i: usize = 0;
    while i < distribution_data_list.len()
        invariant
            i <= distribution_data_list@.len(),
            vault_address_list@.len() == i,
            operator_merkle_root_list@.len() == i,
            total_staker_reward_list@.len() == i,
            total_operator_reward_list@.len() == i,
            forall|j: int|
                0 <= j < i ==> {
                    &&& #[trigger] vault_address_list@[j] == distribution_data_list@[j].vault_address
                    &&& operator_merkle_root_list@[j] == distribution_data_list@[j].operator_merkle_root
                    &&& total_staker_reward_list@[j] == distribution_data_list@[j].total_staker_reward
                    &&& total_operator_reward_list@[j]
                        == distribution_data_list@[j].total_operator_reward
                },
        decreases distribution_data_list.len() - i,
    {
        let data = distribution_data_list[i];
        vault_address_list.push(data.vault_address);
        operator_merkle_root_list.push(data.operator_merkle_root);
        total_staker_reward_list.push(data.total_staker_reward);
        total_operator_reward_list.push(data.total_operator_reward);
        i = i + 1;
    }
    (
        pending_reward_task_index,
        vault_address_list,
        operator_merkle_root_list,
        total_staker_reward_list,
        total_operator_reward_list,
    )
}

} // verus!
