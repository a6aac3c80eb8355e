use vstd::prelude::*;

verus! {

pub const SLOTS_PER_EPOCH: u64 = 32;
pub const SLOTS_PER_HISTORICAL_ROOT: u64 = 8192;
pub const EPOCHS_PER_HISTORICAL_VECTOR: u64 = 65536;
pub const EPOCHS_PER_SLASHINGS_VECTOR: u64 = 8192;
pub const MIN_SEED_LOOKAHEAD: u64 = 1;
pub const MAX_SEED_LOOKAHEAD: u64 = 4;
pub const SHUFFLE_ROUND_COUNT: u64 = 90;
pub const GENESIS_EPOCH: u64 = 0;
pub const FAR_FUTURE_EPOCH: u64 = 0xffff_ffff_ffff_ffff;
pub const MIN_PER_EPOCH_CHURN_LIMIT: u64 = 4;
pub const CHURN_LIMIT_QUOTIENT: u64 = 65536;
pub const TARGET_COMMITTEE_SIZE: u64 = 128;
pub const MAX_COMMITTEES_PER_SLOT: u64 = 64;
pub const EFFECTIVE_BALANCE_INCREMENT: u64 = 1_000_000_000;
pub const MAX_EFFECTIVE_BALANCE: u64 = 32_000_000_000;
pub const MAX_RANDOM_BYTE: u64 = 255;
pub const MIN_VALIDATOR_WITHDRAWABILITY_DELAY: u64 = 256;
pub const MIN_SLASHING_PENALTY_QUOTIENT: u64 = 128;
pub const WHISTLEBLOWER_REWARD_QUOTIENT: u64 = 512;
pub const PROPOSER_WEIGHT: u64 = 8;
pub const WEIGHT_DENOMINATOR: u64 = 64;
pub const PROPOSER_REWARD_QUOTIENT: u64 = 8;
pub const BASE_REWARD_FACTOR: u64 = 64;
pub const INACTIVITY_SCORE_BIAS: u64 = 4;
pub const INACTIVITY_SCORE_RECOVERY_RATE: u64 = 16;
pub const INACTIVITY_PENALTY_QUOTIENT_ALTAIR: u64 = 50_331_648;
pub const MIN_EPOCHS_TO_INACTIVITY_PENALTY: u64 = 4;
pub const MIN_ATTESTATION_INCLUSION_DELAY: u64 = 1;
pub const MIN_GENESIS_TIME: u64 = 1_606_824_000;
pub const MIN_GENESIS_ACTIVE_VALIDATOR_COUNT: u64 = 16384;
pub const TIMELY_SOURCE_FLAG_INDEX: u8 = 0;
pub const TIMELY_TARGET_FLAG_INDEX: u8 = 1;
pub const TIMELY_HEAD_FLAG_INDEX: u8 = 2;
pub const DOMAIN_BEACON_PROPOSER: [u8; 4] = [0, 0, 0, 0];
pub const DOMAIN_BEACON_ATTESTER: [u8; 4] = [1, 0, 0, 0];

} // verus!
