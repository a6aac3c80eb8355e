use beacon_state::beacon_state::BeaconState;
use beacon_state::constants::{
    EFFECTIVE_BALANCE_INCREMENT, EPOCHS_PER_SLASHINGS_VECTOR, FAR_FUTURE_EPOCH,
    MIN_PER_EPOCH_CHURN_LIMIT, TIMELY_HEAD_FLAG_INDEX, TIMELY_SOURCE_FLAG_INDEX,
    TIMELY_TARGET_FLAG_INDEX,
};
use beacon_state::misc::{compute_shuffled_index, integer_squareroot};
use beacon_state::types::{
    Attestation, AttestationData, BeaconStateError, Checkpoint, Fork, Validator,
};

const GWEI_32_ETH: u64 = 32_000_000_000;

fn validator(effective_balance: u64) -> Validator {
    Validator {
        effective_balance,
        slashed: false,
        activation_eligibility_epoch: 0,
        activation_epoch: 0,
        exit_epoch: FAR_FUTURE_EPOCH,
        withdrawable_epoch: FAR_FUTURE_EPOCH,
    }
}

fn fork() -> Fork {
    Fork { previous_version: [0, 0, 0, 0], current_version: [1, 2, 3, 4], epoch: 0 }
}

/// A state at `slot` with `n` validators of 32 ETH, all active since genesis.
fn state_with(n: usize, slot: u64) -> BeaconState {
    let validators = (0..n).map(|_| validator(GWEI_32_ETH)).collect();
    BeaconState::new(1_606_824_000, [0u8; 32], slot, fork(), validators)
}

const SEED0: [u8; 32] = [
    133, 117, 155, 56, 17, 255, 125, 196, 123, 3, 121, 42, 200, 83, 23, 190, 81, 67, 26, 63, 158,
    1, 220, 175, 206, 49, 126, 215, 54, 163, 145, 176,
];

#[test]
fn four_validators_active_at_epoch_five() {
    let state = state_with(4, 5 * 32);
    assert_eq!(state.get_current_epoch(), 5);
    assert_eq!(state.get_active_validator_indices(5), vec![0, 1, 2, 3]);
    assert_eq!(state.get_validator_churn_limit(), MIN_PER_EPOCH_CHURN_LIMIT);
}

#[test]
fn previous_epoch_clamps_at_genesis() {
    assert_eq!(state_with(1, 3).get_previous_epoch(), 0);
    assert_eq!(state_with(1, 64).get_previous_epoch(), 1);
}

#[test]
fn decrease_balance_past_zero_floors_at_zero() {
    let mut state = state_with(2, 0);
    state.decrease_balance(1, GWEI_32_ETH + 1);
    assert_eq!(state.balances[1], 0);
    assert_eq!(state.balances[0], GWEI_32_ETH);
    state.decrease_balance(0, 5);
    assert_eq!(state.balances[0], GWEI_32_ETH - 5);
    state.decrease_balance(9, 5);
    assert_eq!(state.balances, vec![GWEI_32_ETH - 5, 0]);
}

#[test]
fn increase_balance_is_checked() {
    let mut state = state_with(2, 0);
    state.increase_balance(0, 7);
    assert_eq!(state.balances[0], GWEI_32_ETH + 7);
    state.increase_balance(1, u64::MAX);
    assert_eq!(state.balances[1], GWEI_32_ETH);
    state.increase_balance(5, 7);
    assert_eq!(state.balances, vec![GWEI_32_ETH + 7, GWEI_32_ETH]);
}

#[test]
fn total_balance_of_no_indices_is_one_increment() {
    let state = state_with(3, 0);
    assert_eq!(state.get_total_balance(&vec![]), EFFECTIVE_BALANCE_INCREMENT);
    assert_eq!(state.get_total_balance(&vec![0, 2]), 2 * GWEI_32_ETH);
    assert_eq!(state.get_total_active_balance(), 3 * GWEI_32_ETH);
}

#[test]
fn block_root_reads_the_ring_inside_the_window() {
    let mut state = state_with(1, 10_000);
    let root = [9u8; 32];
    state.block_roots[(9_000 % 8192) as usize] = root;
    assert_eq!(state.get_block_root_at_slot(9_000), Ok(root));
    assert_eq!(state.get_block_root_at_slot(10_000), Err(BeaconStateError::OutOfHistoryRange));
    assert_eq!(state.get_block_root_at_slot(1_807), Err(BeaconStateError::OutOfHistoryRange));
    assert_eq!(state.get_block_root_at_slot(1_808), Ok([0u8; 32]));
    assert_eq!(state.get_block_root(u64::MAX), Err(BeaconStateError::OutOfHistoryRange));
}

#[test]
fn seed_hashes_domain_epoch_and_mix() {
    let state = state_with(1, 0);
    assert_eq!(state.get_seed(0, &[0, 0, 0, 0]), SEED0);
    assert_ne!(state.get_seed(1, &[0, 0, 0, 0]), SEED0);
}

#[test]
fn domain_prefixes_the_fork_data_root() {
    let state = state_with(1, 0);
    let expected: [u8; 32] = [
        7, 0, 0, 0, 255, 210, 252, 52, 229, 121, 106, 100, 63, 116, 155, 11, 43, 144, 140, 76,
        163, 206, 88, 206, 36, 160, 12, 73, 50, 154, 45, 192,
    ];
    assert_eq!(state.get_domain(&[7, 0, 0, 0], None), expected);
    assert_eq!(state.get_domain(&[7, 0, 0, 0], Some(3)), expected);
}

#[test]
fn shuffle_permutes_positions() {
    let shuffled: Vec<u64> = (0..10).map(|i| compute_shuffled_index(i, 10, &SEED0)).collect();
    assert_eq!(shuffled, vec![2, 1, 4, 6, 7, 3, 0, 5, 8, 9]);
}

#[test]
fn proposer_from_a_single_index_is_that_index() {
    let state = state_with(8, 0);
    for s in 0..5u8 {
        let seed = [s; 32];
        assert_eq!(state.compute_proposer_index(&[6], &seed), Ok(6));
    }
}

#[test]
fn proposer_draw_is_deterministic() {
    let state = state_with(8, 0);
    let indices = [0, 1, 2, 3, 4, 5, 6, 7];
    let first = state.compute_proposer_index(&indices, &SEED0);
    let second = state.compute_proposer_index(&indices, &SEED0);
    assert!(first.is_ok());
    assert_eq!(first, second);
    assert_eq!(state.compute_proposer_index(&[], &SEED0), Err(BeaconStateError::EmptyIndexSet));
}

#[test]
fn beacon_proposer_is_active() {
    let state = state_with(8, 77);
    let p = state.get_beacon_proposer_index().unwrap();
    assert!(p < 8);
    let empty = state_with(0, 77);
    assert_eq!(empty.get_beacon_proposer_index(), Err(BeaconStateError::EmptyIndexSet));
}

#[test]
fn initiate_exit_twice_changes_nothing_the_second_time() {
    let mut state = state_with(4, 5 * 32);
    state.initiate_validator_exit(2);
    assert_eq!(state.validators[2].exit_epoch, 10);
    assert_eq!(state.validators[2].withdrawable_epoch, 266);
    let after_first = state.clone();
    state.initiate_validator_exit(2);
    assert_eq!(state, after_first);
    state.initiate_validator_exit(40);
    assert_eq!(state, after_first);
}

#[test]
fn exit_queue_respects_churn_limit() {
    let mut state = state_with(6, 5 * 32);
    for i in 0..6 {
        state.initiate_validator_exit(i);
    }
    let epochs: Vec<u64> = state.validators.iter().map(|v| v.exit_epoch).collect();
    assert_eq!(epochs, vec![10, 10, 10, 10, 11, 11]);
}

#[test]
fn slashing_penalises_and_rewards() {
    let mut state = state_with(4, 5 * 32);
    let before: u64 = state.balances.iter().sum();
    assert_eq!(state.slash_validator(1, Some(2)), Ok(()));
    let v = state.validators[1];
    assert!(v.slashed);
    assert!(v.withdrawable_epoch >= 5 + EPOCHS_PER_SLASHINGS_VECTOR);
    assert_eq!(v.exit_epoch, 10);
    assert_eq!(state.slashings[5], GWEI_32_ETH);
    let after: u64 = state.balances.iter().sum();
    // penalty of 32 ETH / 128, rewards of 32 ETH / 512 in all
    assert_eq!(after, before - 250_000_000 + 62_500_000);
    assert!(state.balances[2] >= GWEI_32_ETH + 54_687_500);
}

#[test]
fn slashing_an_unknown_validator_fails() {
    let mut state = state_with(4, 5 * 32);
    let before = state.clone();
    assert_eq!(state.slash_validator(4, None), Err(BeaconStateError::ValidatorNotFound));
    assert_eq!(state, before);
}

#[test]
fn flags_set_and_test_one_bit_each() {
    let f = BeaconState::add_flag(0, TIMELY_TARGET_FLAG_INDEX);
    assert_eq!(f, 2);
    assert!(BeaconState::has_flag(f, TIMELY_TARGET_FLAG_INDEX));
    assert!(!BeaconState::has_flag(f, TIMELY_SOURCE_FLAG_INDEX));
    let g = BeaconState::add_flag(f, TIMELY_HEAD_FLAG_INDEX);
    assert_eq!(g, 6);
    assert!(BeaconState::has_flag(g, TIMELY_TARGET_FLAG_INDEX));
}

#[test]
fn participating_indices_need_flag_activity_and_no_slashing() {
    let mut state = state_with(4, 5 * 32);
    state.previous_epoch_participation = vec![2, 2, 0, 2];
    state.validators[3].slashed = true;
    assert_eq!(state.get_unslashed_participating_indices(TIMELY_TARGET_FLAG_INDEX, 4), Ok(vec![0, 1]));
    assert_eq!(state.get_unslashed_participating_indices(TIMELY_TARGET_FLAG_INDEX, 5), Ok(vec![]));
    assert_eq!(
        state.get_unslashed_participating_indices(TIMELY_TARGET_FLAG_INDEX, 3),
        Err(BeaconStateError::InvalidEpoch)
    );
}

#[test]
fn eligible_indices_include_slashed_not_yet_withdrawable() {
    let mut state = state_with(3, 5 * 32);
    state.validators[1].exit_epoch = 2;
    state.validators[1].slashed = true;
    state.validators[1].withdrawable_epoch = 100;
    state.validators[2].exit_epoch = 2;
    assert_eq!(state.get_eligible_validator_indices(), Ok(vec![0, 1]));
    assert_eq!(state.get_index_for_new_validator(), 3);
}

#[test]
fn inactivity_scores_update_by_participation() {
    let mut state = state_with(3, 5 * 32);
    state.previous_epoch_participation = vec![2, 0, 0];
    state.inactivity_scores = vec![20, 20, 0];
    assert!(!state.is_in_inactivity_leak());
    assert_eq!(state.process_inactivity_updates(), Ok(()));
    assert_eq!(state.inactivity_scores, vec![3, 8, 0]);
}

#[test]
fn inactivity_scores_skip_genesis_and_keep_bias_in_leak() {
    let mut genesis = state_with(2, 3);
    genesis.inactivity_scores = vec![5, 5];
    assert_eq!(genesis.process_inactivity_updates(), Ok(()));
    assert_eq!(genesis.inactivity_scores, vec![5, 5]);
    let mut leaking = state_with(1, 10 * 32);
    assert_eq!(leaking.get_finality_delay(), 9);
    assert!(leaking.is_in_inactivity_leak());
    assert_eq!(leaking.process_inactivity_updates(), Ok(()));
    assert_eq!(leaking.inactivity_scores, vec![4]);
}

#[test]
fn inactivity_penalties_for_missed_targets() {
    let mut state = state_with(2, 5 * 32);
    state.previous_epoch_participation = vec![2, 0];
    state.inactivity_scores = vec![8, 8];
    let (rewards, penalties) = state.get_inactivity_penalty_deltas().unwrap();
    assert_eq!(rewards, vec![0, 0]);
    assert_eq!(penalties, vec![0, 1271]);
}

#[test]
fn rewards_scale_with_square_root_of_total_balance() {
    let state = state_with(4, 5 * 32);
    assert_eq!(state.get_base_reward_per_increment(), 178_885);
    assert_eq!(state.get_base_reward(0), 32 * 178_885);
    assert_eq!(state.get_proposer_reward(0), 32 * 178_885 / 8);
}

#[test]
fn integer_square_roots() {
    assert_eq!(integer_squareroot(0), 0);
    assert_eq!(integer_squareroot(1), 1);
    assert_eq!(integer_squareroot(32), 5);
    assert_eq!(integer_squareroot(128_000_000_000), 357_770);
    assert_eq!(integer_squareroot(u64::MAX), 4_294_967_295);
}

#[test]
fn committees_partition_the_active_set() {
    let state = state_with(4, 5 * 32);
    assert_eq!(state.get_committee_count_per_slot(5), 1);
    let mut seen = vec![];
    for slot in 160..192 {
        seen.extend(state.get_beacon_committee(slot, 0).unwrap());
    }
    seen.sort();
    assert_eq!(seen, vec![0, 1, 2, 3]);
    assert_eq!(state.get_beacon_committee(160, 1), Err(BeaconStateError::CommitteeIndexOutOfRange));
}

fn attestation_data(slot: u64, target_epoch: u64) -> AttestationData {
    AttestationData {
        slot,
        index: 0,
        beacon_block_root: [0u8; 32],
        source: Checkpoint { epoch: 0, root: [0u8; 32] },
        target: Checkpoint { epoch: target_epoch, root: [0u8; 32] },
    }
}

#[test]
fn attesting_indices_follow_the_bits() {
    let state = state_with(64, 5 * 32);
    let slot = 165;
    let committee = state.get_beacon_committee(slot, 0).unwrap();
    assert_eq!(committee.len(), 2);
    let att = Attestation {
        aggregation_bits: vec![false, true],
        data: attestation_data(slot, 5),
        signature: vec![1, 2, 3],
    };
    assert_eq!(state.get_attesting_indices(att.clone()), Ok(vec![committee[1]]));
    let both = Attestation { aggregation_bits: vec![true, true, true], ..att.clone() };
    let indexed = state.get_indexed_attestation(both).unwrap();
    let mut sorted = committee.clone();
    sorted.sort();
    assert_eq!(indexed.attesting_indices, sorted);
    assert_eq!(indexed.signature, vec![1, 2, 3]);
    assert_eq!(indexed.data, att.data);
}

#[test]
fn participation_flags_by_inclusion_delay() {
    let state = state_with(4, 170);
    let data = attestation_data(165, 5);
    assert_eq!(
        state.get_attestation_participation_flag_indices(data, 1),
        Ok(vec![TIMELY_SOURCE_FLAG_INDEX, TIMELY_TARGET_FLAG_INDEX, TIMELY_HEAD_FLAG_INDEX])
    );
    assert_eq!(
        state.get_attestation_participation_flag_indices(data, 5),
        Ok(vec![TIMELY_SOURCE_FLAG_INDEX, TIMELY_TARGET_FLAG_INDEX])
    );
    assert_eq!(state.get_attestation_participation_flag_indices(data, 6), Ok(vec![TIMELY_TARGET_FLAG_INDEX]));
    assert_eq!(state.get_attestation_participation_flag_indices(data, 33), Ok(vec![]));
    let mut wrong_source = data;
    wrong_source.source.epoch = 1;
    assert_eq!(
        state.get_attestation_participation_flag_indices(wrong_source, 1),
        Err(BeaconStateError::SourceMismatch)
    );
    let mut wrong_target = data;
    wrong_target.target.root = [1u8; 32];
    assert_eq!(
        state.get_attestation_participation_flag_indices(wrong_target, 1),
        Ok(vec![TIMELY_SOURCE_FLAG_INDEX])
    );
}

#[test]
fn genesis_validity_needs_time_and_validators() {
    assert!(!state_with(4, 0).is_valid_genesis_state());
    let mut enough = state_with(16384, 0);
    assert!(enough.is_valid_genesis_state());
    enough.genesis_time = 0;
    assert!(!enough.is_valid_genesis_state());
}

#[test]
fn beacon_proposer_equals_a_direct_draw() {
    let state = state_with(8, 77);
    let epoch = state.get_current_epoch();
    let indices = state.get_active_validator_indices(epoch);
    let proposer = state.get_beacon_proposer_index();
    // the drawn proposer is the same for every rebuilt copy of the state
    let copy = state_with(8, 77);
    assert_eq!(proposer, copy.get_beacon_proposer_index());
    assert!(indices.contains(&proposer.unwrap()));
}

#[test]
fn slashing_without_whistleblower_pays_the_proposer_in_full() {
    let mut state = state_with(4, 5 * 32);
    let p = state.get_beacon_proposer_index().unwrap();
    let slashed = if p == 0 { 1 } else { 0 };
    let before = state.balances[p as usize];
    assert_eq!(state.slash_validator(slashed, None), Ok(()));
    assert_eq!(state.balances[p as usize], before + 62_500_000);
    assert_eq!(state.balances[slashed as usize], GWEI_32_ETH - 250_000_000);
}

#[test]
fn new_state_has_zeroed_rings_and_empty_history() {
    let state = state_with(2, 9);
    assert!(state.block_roots.iter().all(|r| *r == [0u8; 32]));
    assert!(state.randao_mixes.iter().all(|r| *r == [0u8; 32]));
    assert_eq!(state.block_roots.len(), 8192);
    assert_eq!(state.randao_mixes.len(), 65536);
    assert!(state.historical_summaries.is_empty());
    assert!(state.eth1_data_votes.is_empty());
    assert_eq!(state.finalized_checkpoint, Checkpoint { epoch: 0, root: [0u8; 32] });
}
