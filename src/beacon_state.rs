use vstd::prelude::*;
use vstd::arithmetic::div_mod::{lemma_div_is_ordered_by_denominator, lemma_fundamental_div_mod_converse};
use vstd::arithmetic::mul::lemma_mul_upper_bound;
use crate::bytes::{append_bytes, append_le_u64, le_bytes, roots_equal};
use crate::constants::{
    BASE_REWARD_FACTOR, CHURN_LIMIT_QUOTIENT, DOMAIN_BEACON_ATTESTER, DOMAIN_BEACON_PROPOSER,
    EFFECTIVE_BALANCE_INCREMENT, EPOCHS_PER_HISTORICAL_VECTOR, EPOCHS_PER_SLASHINGS_VECTOR,
    FAR_FUTURE_EPOCH, GENESIS_EPOCH, INACTIVITY_PENALTY_QUOTIENT_ALTAIR, INACTIVITY_SCORE_BIAS, INACTIVITY_SCORE_RECOVERY_RATE,
    MAX_COMMITTEES_PER_SLOT, MAX_EFFECTIVE_BALANCE, MAX_RANDOM_BYTE, MAX_SEED_LOOKAHEAD,
    MIN_ATTESTATION_INCLUSION_DELAY, MIN_EPOCHS_TO_INACTIVITY_PENALTY, MIN_GENESIS_ACTIVE_VALIDATOR_COUNT, MIN_GENESIS_TIME,
    MIN_PER_EPOCH_CHURN_LIMIT, MIN_SEED_LOOKAHEAD, MIN_SLASHING_PENALTY_QUOTIENT,
    MIN_VALIDATOR_WITHDRAWABILITY_DELAY, PROPOSER_REWARD_QUOTIENT, PROPOSER_WEIGHT,
    SLOTS_PER_EPOCH, SLOTS_PER_HISTORICAL_ROOT, TARGET_COMMITTEE_SIZE, TIMELY_HEAD_FLAG_INDEX,
    TIMELY_SOURCE_FLAG_INDEX, TIMELY_TARGET_FLAG_INDEX,
    WEIGHT_DENOMINATOR, WHISTLEBLOWER_REWARD_QUOTIENT,
};
use crate::hashing::{sha256, sha256_of};
use crate::misc::{
    committee_members, dedup_first, is_sorted, sort_ascending, unique_in_order, compute_activation_exit_epoch, compute_committee, compute_domain,
    compute_epoch_at_slot, compute_shuffled_index, domain_of, epoch_at_slot, full_shuffled_index,
    integer_squareroot, is_floor_sqrt,
};
use crate::types::{
    Attestation, AttestationData, BeaconBlockHeader, BeaconStateError, Checkpoint, Eth1Data,
    ExecutionPayloadHeader, Fork, HistoricalSummary, IndexedAttestation, Root, SyncCommittee,
    Validator,
};

verus! {

/// The sequence of the indices below `n` that satisfy `p`, in ascending order.
pub open spec fn indices_where(n: nat, p: spec_fn(int) -> bool) -> Seq<u64>
    decreases n,
{
    if n == 0 {
        seq![]
    } else {
        let rest = indices_where((n - 1) as nat, p);
        if p(n - 1) {
            rest.push((n - 1) as u64)
        } else {
            rest
        }
    }
}

/// An ascending list of indices holds each index below `n` that satisfies
/// `p`, and nothing else.
pub proof fn lemma_indices_where(n: nat, p: spec_fn(int) -> bool)
    requires
        n <= u64::MAX + 1,
    ensures
        forall|j: int| 0 <= j < indices_where(n, p).len() ==> indices_where(n, p)[j] < n,
        forall|j: int| 0 <= j < indices_where(n, p).len() ==> p(indices_where(n, p)[j] as int),
        forall|j: int, k: int|
            0 <= j < k < indices_where(n, p).len() ==> indices_where(n, p)[j] < indices_where(n, p)[k],
        forall|x: u64| indices_where(n, p).contains(x) <==> (x < n && p(x as int)),
        indices_where(n, p).no_duplicates(),
        indices_where(n, p).len() <= n,
    decreases n,
{
    if n > 0 {
        lemma_indices_where((n - 1) as nat, p);
        let rest = indices_where((n - 1) as nat, p);
        let s = indices_where(n, p);
        if p(n - 1) {
            assert(s == rest.push((n - 1) as u64));
            assert forall|x: u64| s.contains(x) <==> (x < n && p(x as int)) by {
                if x == (n - 1) as u64 {
                    assert(s[rest.len() as int] == x);
                } else if s.contains(x) {
                    let j = choose|j: int| 0 <= j < s.len() && s[j] == x;
                    assert(rest[j] == x);
                } else if x < n && p(x as int) {
                    assert(rest.contains(x));
                    let j = choose|j: int| 0 <= j < rest.len() && rest[j] == x;
                    assert(s[j] == x);
                }
            }
        }
    }
}

/// Whether `v` is active at `epoch`: activated at or before it, not yet exited.
pub open spec fn is_active(v: Validator, epoch: u64) -> bool {
    v.activation_epoch <= epoch && epoch < v.exit_epoch
}

/// The activity test of `vs` at `epoch`, by index.
pub open spec fn active_pred(vs: Seq<Validator>, epoch: u64) -> spec_fn(int) -> bool {
    |i: int| is_active(vs[i], epoch)
}

/// The indices of the validators active at `epoch`, in ascending order.
pub open spec fn active_indices(vs: Seq<Validator>, epoch: u64) -> Seq<u64> {
    indices_where(vs.len(), active_pred(vs, epoch))
}

/// The sum of the effective balances of the validators at `indices`.
pub open spec fn effective_balance_sum(vs: Seq<Validator>, indices: Seq<u64>) -> int
    decreases indices.len(),
{
    if indices.len() == 0 {
        0
    } else {
        effective_balance_sum(vs, indices.drop_last())
            + vs[indices.last() as int].effective_balance as int
    }
}

/// The state record: one snapshot of the chain's registry, balances,
/// randomness and accounting.
#[derive(Clone, Debug, PartialEq, Eq)]
pub struct BeaconState {
    pub genesis_time: u64,
    pub genesis_validators_root: Root,
    pub slot: u64,
    pub fork: Fork,
    pub latest_block_header: BeaconBlockHeader,
    pub block_roots: Vec<Root>,
    pub state_roots: Vec<Root>,
    pub historical_roots: Vec<Root>,
    pub eth1_data: Eth1Data,
    pub eth1_data_votes: Vec<Eth1Data>,
    pub eth1_deposit_index: u64,
    pub validators: Vec<Validator>,
    pub balances: Vec<u64>,
    pub randao_mixes: Vec<Root>,
    pub slashings: Vec<u64>,
    pub previous_epoch_participation: Vec<u8>,
    pub current_epoch_participation: Vec<u8>,
    pub justification_bits: u8,
    pub previous_justified_checkpoint: Checkpoint,
    pub current_justified_checkpoint: Checkpoint,
    pub finalized_checkpoint: Checkpoint,
    pub inactivity_scores: Vec<u64>,
    pub current_sync_committee: SyncCommittee,
    pub next_sync_committee: SyncCommittee,
    pub latest_execution_payload_header: ExecutionPayloadHeader,
    pub next_withdrawal_index: u64,
    pub next_withdrawal_validator_index: u64,
    pub historical_summaries: Vec<HistoricalSummary>,
}

/// Whether every byte of `r` is zero.
pub open spec fn is_zero_root(r: Root) -> bool {
    forall|t: int| 0 <= t < 32 ==> r@[t] == 0
}

/// The epoch of a state's slot.
pub open spec fn current_epoch_of(s: BeaconState) -> u64 {
    epoch_at_slot(s.slot)
}

/// The epoch before the current one, or the genesis epoch at genesis.
pub open spec fn previous_epoch_of(s: BeaconState) -> u64 {
    if current_epoch_of(s) == GENESIS_EPOCH {
        GENESIS_EPOCH
    } else {
        (current_epoch_of(s) - 1) as u64
    }
}

/// How many validators may exit in the current epoch.
pub open spec fn churn_limit_of(s: BeaconState) -> u64 {
    let by_size = (active_indices(s.validators@, current_epoch_of(s)).len() / (
    CHURN_LIMIT_QUOTIENT as nat)) as u64;
    if by_size > MIN_PER_EPOCH_CHURN_LIMIT {
        by_size
    } else {
        MIN_PER_EPOCH_CHURN_LIMIT
    }
}

/// What reading the block root at `slot` gives: the ring entry, for a slot
/// among the most recent ones before the state's slot.
pub open spec fn block_root_at_slot_of(s: BeaconState, slot: int) -> Result<Root, BeaconStateError> {
    if slot < s.slot && s.slot <= slot + SLOTS_PER_HISTORICAL_ROOT {
        Ok(s.block_roots@[slot % (SLOTS_PER_HISTORICAL_ROOT as int)])
    } else {
        Err(BeaconStateError::OutOfHistoryRange)
    }
}

/// The seed of `epoch` for `domain_type`.
pub open spec fn seed_of(s: BeaconState, epoch: u64, domain_type: Seq<u8>) -> Seq<u8> {
    sha256_of(
        domain_type + le_bytes(epoch) + s.randao_mixes@[(epoch + EPOCHS_PER_HISTORICAL_VECTOR
            - MIN_SEED_LOOKAHEAD - 1) % (EPOCHS_PER_HISTORICAL_VECTOR as int)]@,
    )
}

impl BeaconState {
    /// The record's invariant: the rings have their fixed sizes, and every
    /// per-validator list has one entry per validator.
    pub open spec fn wf(&self) -> bool {
        &&& self.block_roots@.len() == SLOTS_PER_HISTORICAL_ROOT
        &&& self.state_roots@.len() == SLOTS_PER_HISTORICAL_ROOT
        &&& self.randao_mixes@.len() == EPOCHS_PER_HISTORICAL_VECTOR
        &&& self.slashings@.len() == EPOCHS_PER_SLASHINGS_VECTOR
        &&& self.balances@.len() == self.validators@.len()
        &&& self.previous_epoch_participation@.len() == self.validators@.len()
        &&& self.current_epoch_participation@.len() == self.validators@.len()
        &&& self.inactivity_scores@.len() == self.validators@.len()
    }

    /// Builds a record at `slot` over `validators`, each with its effective
    /// balance as balance, no participation, no inactivity, zeroed rings and
    /// checkpoints, empty history and vote lists, empty sync committees and a
    /// zeroed execution header.
    pub fn new(
        genesis_time: u64,
        genesis_validators_root: Root,
        slot: u64,
        fork: Fork,
        validators: Vec<Validator>,
    ) -> (r: BeaconState)
        ensures
            r.wf(),
            r.genesis_time == genesis_time,
            r.genesis_validators_root == genesis_validators_root,
            r.slot == slot,
            r.fork == fork,
            r.validators@ == validators@,
            forall|i: int| 0 <= i < validators@.len() ==> r.balances@[i] == validators@[i].effective_balance,
            forall|i: int| 0 <= i < validators@.len() ==> r.previous_epoch_participation@[i] == 0,
            forall|i: int| 0 <= i < validators@.len() ==> r.current_epoch_participation@[i] == 0,
            forall|i: int| 0 <= i < validators@.len() ==> r.inactivity_scores@[i] == 0,
            forall|i: int| 0 <= i < EPOCHS_PER_SLASHINGS_VECTOR ==> r.slashings@[i] == 0,
            forall|i: int| 0 <= i < SLOTS_PER_HISTORICAL_ROOT ==> is_zero_root(r.block_roots@[i]),
            forall|i: int| 0 <= i < SLOTS_PER_HISTORICAL_ROOT ==> is_zero_root(r.state_roots@[i]),
            forall|i: int| 0 <= i < EPOCHS_PER_HISTORICAL_VECTOR ==> is_zero_root(r.randao_mixes@[i]),
            r.historical_roots@.len() == 0,
            r.eth1_data_votes@.len() == 0,
            r.historical_summaries@.len() == 0,
            r.eth1_deposit_index == 0,
            r.eth1_data.deposit_count == 0,
            r.justification_bits == 0,
            r.previous_justified_checkpoint.epoch == 0 && is_zero_root(r.previous_justified_checkpoint.root),
            r.current_justified_checkpoint.epoch == 0 && is_zero_root(r.current_justified_checkpoint.root),
            r.finalized_checkpoint.epoch == 0 && is_zero_root(r.finalized_checkpoint.root),
            r.latest_block_header.slot == 0,
            r.next_withdrawal_index == 0,
            r.next_withdrawal_validator_index == 0,
    {
        let zero: Root = genesis_validators_root;
        let mut zero_root = zero;
        let mut z: usize = 0;
        while z < 32
            invariant
                z <= 32,
                zero_root@.len() == 32,
                forall|t: int| 0 <= t < z ==> zero_root@[t] == 0,
            decreases 32 - z,
        {
            zero_root[z] = 0;
            z = z + 1;
        }
        let mut block_roots: Vec<Root> = Vec::new();
        let mut state_roots: Vec<Root> = Vec::new();
        let mut slashings: Vec<u64> = Vec::new();
        let mut k: u64 = 0;
        while k < SLOTS_PER_HISTORICAL_ROOT
            invariant
                k <= SLOTS_PER_HISTORICAL_ROOT,
                is_zero_root(zero_root),
                forall|i: int| 0 <= i < k ==> block_roots@[i] == zero_root,
                forall|i: int| 0 <= i < k ==> state_roots@[i] == zero_root,
                block_roots@.len() == k,
                state_roots@.len() == k,
                slashings@.len() == k,
                forall|i: int| 0 <= i < k ==> slashings@[i] == 0,
            decreases SLOTS_PER_HISTORICAL_ROOT - k,
        {
            block_roots.push(zero_root);
            state_roots.push(zero_root);
            slashings.push(0);
            k = k + 1;
        }
        let mut randao_mixes: Vec<Root> = Vec::new();
        let mut m: u64 = 0;
        while m < EPOCHS_PER_HISTORICAL_VECTOR
            invariant
                m <= EPOCHS_PER_HISTORICAL_VECTOR,
                is_zero_root(zero_root),
                forall|i: int| 0 <= i < m ==> randao_mixes@[i] == zero_root,
                randao_mixes@.len() == m,
            decreases EPOCHS_PER_HISTORICAL_VECTOR - m,
        {
            randao_mixes.push(zero_root);
            m = m + 1;
        }
        let mut balances: Vec<u64> = Vec::new();
        let mut previous_epoch_participation: Vec<u8> = Vec::new();
        let mut current_epoch_participation: Vec<u8> = Vec::new();
        let mut inactivity_scores: Vec<u64> = Vec::new();
        let mut i: usize = 0;
        while i < validators.len()
            invariant
                i <= validators@.len(),
                balances@.len() == i,
                previous_epoch_participation@.len() == i,
                current_epoch_participation@.len() == i,
                inactivity_scores@.len() == i,
                forall|j: int| 0 <= j < i ==> balances@[j] == validators@[j].effective_balance,
                forall|j: int| 0 <= j < i ==> previous_epoch_participation@[j] == 0,
                forall|j: int| 0 <= j < i ==> current_epoch_participation@[j] == 0,
                forall|j: int| 0 <= j < i ==> inactivity_scores@[j] == 0,
            decreases validators@.len() - i,
        {
            balances.push(validators[i].effective_balance);
            previous_epoch_participation.push(0);
            current_epoch_participation.push(0);
            inactivity_scores.push(0);
            i = i + 1;
        }
        let checkpoint = Checkpoint { epoch: 0, root: zero_root };
        let header = BeaconBlockHeader {
            slot: 0,
            proposer_index: 0,
            parent_root: zero_root,
            state_root: zero_root,
            body_root: zero_root,
        };
        let eth1_data = Eth1Data { deposit_root: zero_root, deposit_count: 0, block_hash: zero_root };
        let payload_header = ExecutionPayloadHeader {
            parent_hash: zero_root,
            fee_recipient: Vec::new(),
            state_root: zero_root,
            receipts_root: zero_root,
            logs_bloom: Vec::new(),
            prev_randao: zero_root,
            block_number: 0,
            gas_limit: 0,
            gas_used: 0,
            timestamp: 0,
            extra_data: Vec::new(),
            base_fee_per_gas: zero_root,
            block_hash: zero_root,
            transactions_root: zero_root,
            withdrawals_root: zero_root,
            blob_gas_used: 0,
            excess_blob_gas: 0,
        };
        BeaconState {
            genesis_time,
            genesis_validators_root,
            slot,
            fork,
            latest_block_header: header,
            block_roots,
            state_roots,
            historical_roots: Vec::new(),
            eth1_data,
            eth1_data_votes: Vec::new(),
            eth1_deposit_index: 0,
            validators,
            balances,
            randao_mixes,
            slashings,
            previous_epoch_participation,
            current_epoch_participation,
            justification_bits: 0,
            previous_justified_checkpoint: checkpoint,
            current_justified_checkpoint: checkpoint,
            finalized_checkpoint: checkpoint,
            inactivity_scores,
            current_sync_committee: SyncCommittee { pubkeys: Vec::new(), aggregate_pubkey: Vec::new() },
            next_sync_committee: SyncCommittee { pubkeys: Vec::new(), aggregate_pubkey: Vec::new() },
            latest_execution_payload_header: payload_header,
            next_withdrawal_index: 0,
            next_withdrawal_validator_index: 0,
            historical_summaries: Vec::new(),
        }
    }

    /// Returns the current epoch.
    pub fn get_current_epoch(&self) -> (r: u64)
        ensures
            r == current_epoch_of(*self),
    {
        compute_epoch_at_slot(self.slot)
    }

    /// Returns the previous epoch, or the genesis epoch at genesis.
    pub fn get_previous_epoch(&self) -> (r: u64)
        ensures
            r == previous_epoch_of(*self),
    {
        let current_epoch = self.get_current_epoch();
        if current_epoch == GENESIS_EPOCH {
            GENESIS_EPOCH
        } else {
            current_epoch - 1
        }
    }

    /// Returns the block root at the start of a recent `epoch`.
    pub fn get_block_root(&self, epoch: u64) -> (r: Result<Root, BeaconStateError>)
        requires
            self.wf(),
        ensures
            r == block_root_at_slot_of(*self, epoch * SLOTS_PER_EPOCH),
    {
        match epoch.checked_mul(SLOTS_PER_EPOCH) {
            Some(start) => self.get_block_root_at_slot(start),
            None => Err(BeaconStateError::OutOfHistoryRange),
        }
    }

    /// Returns the block root at a recent `slot`.
    pub fn get_block_root_at_slot(&self, slot: u64) -> (r: Result<Root, BeaconStateError>)
        requires
            self.wf(),
        ensures
            r == block_root_at_slot_of(*self, slot as int),
    {
        if slot < self.slot && self.slot - slot <= SLOTS_PER_HISTORICAL_ROOT {
            Ok(self.block_roots[(slot % SLOTS_PER_HISTORICAL_ROOT) as usize])
        } else {
            Err(BeaconStateError::OutOfHistoryRange)
        }
    }

    /// Returns the RANDAO mix that the ring holds for `epoch`.
    pub fn get_randao_mix(&self, epoch: u64) -> (r: Root)
        requires
            self.wf(),
        ensures
            r == self.randao_mixes@[(epoch % EPOCHS_PER_HISTORICAL_VECTOR) as int],
    {
        self.randao_mixes[(epoch % EPOCHS_PER_HISTORICAL_VECTOR) as usize]
    }

    /// Returns the indices of the validators active at `epoch`, ascending.
    pub fn get_active_validator_indices(&self, epoch: u64) -> (r: Vec<u64>)
        ensures
            r@ == active_indices(self.validators@, epoch),
    {
        let ghost vs = self.validators@;
        let mut r: Vec<u64> = Vec::new();
        let mut i: usize = 0;
        while i < self.validators.len()
            invariant
                i <= vs.len(),
                vs == self.validators@,
                r@ == indices_where(i as nat, active_pred(vs, epoch)),
            decreases vs.len() - i,
        {
            let v = self.validators[i];
            if v.activation_epoch <= epoch && epoch < v.exit_epoch {
                r.push(i as u64);
            }
            i = i + 1;
        }
        r
    }

    /// Returns how many validators may exit in the current epoch.
    pub fn get_validator_churn_limit(&self) -> (r: u64)
        ensures
            r == churn_limit_of(*self),
    {
        let active = self.get_active_validator_indices(self.get_current_epoch());
        let by_size = active.len() as u64 / CHURN_LIMIT_QUOTIENT;
        if by_size > MIN_PER_EPOCH_CHURN_LIMIT {
            by_size
        } else {
            MIN_PER_EPOCH_CHURN_LIMIT
        }
    }

    /// Returns the seed of `epoch` for `domain_type`: the hash of the domain
    /// type, the epoch's little-endian bytes and a mix from before the
    /// lookahead.
    pub fn get_seed(&self, epoch: u64, domain_type: &[u8; 4]) -> (r: Root)
        requires
            self.wf(),
        ensures
            r@ == seed_of(*self, epoch, domain_type@),
    {
        let mix_epoch = (epoch % EPOCHS_PER_HISTORICAL_VECTOR) + (EPOCHS_PER_HISTORICAL_VECTOR
            - MIN_SEED_LOOKAHEAD - 1);
        let mix = self.get_randao_mix(mix_epoch);
        let mut input: Vec<u8> = Vec::new();
        append_bytes(&mut input, domain_type);
        append_le_u64(&mut input, epoch);
        append_bytes(&mut input, &mix);
        sha256(input.as_slice())
    }

    /// Returns how many committees each slot of `epoch` has.
    pub fn get_committee_count_per_slot(&self, epoch: u64) -> (r: u64)
        ensures
            r == committee_count_of(*self, epoch),
            1 <= r <= MAX_COMMITTEES_PER_SLOT,
    {
        let n = self.get_active_validator_indices(epoch).len() as u64 / SLOTS_PER_EPOCH
            / TARGET_COMMITTEE_SIZE;
        if n < 1 {
            1
        } else if n > MAX_COMMITTEES_PER_SLOT {
            MAX_COMMITTEES_PER_SLOT
        } else {
            n
        }
    }
}

/// The number of committees per slot of `epoch`, clamped to `1..=64`.
pub open spec fn committee_count_of(s: BeaconState, epoch: u64) -> u64 {
    let n = active_indices(s.validators@, epoch).len() / (SLOTS_PER_EPOCH as nat) / (
    TARGET_COMMITTEE_SIZE as nat);
    if n < 1 {
        1
    } else if n > MAX_COMMITTEES_PER_SLOT {
        MAX_COMMITTEES_PER_SLOT
    } else {
        n as u64
    }
}

/// The validator drawn at step `i` of the proposer draw.
pub open spec fn proposer_candidate(indices: Seq<u64>, seed: Seq<u8>, i: nat) -> u64 {
    indices[full_shuffled_index((i % indices.len()) as u64, indices.len() as u64, seed) as int]
}

/// The pseudorandom byte of step `i` of the proposer draw.
pub open spec fn proposer_random_byte(seed: Seq<u8>, i: nat) -> u8 {
    sha256_of(seed + le_bytes((i / 32) as u64))[(i % 32) as int]
}

/// Whether step `i` of the proposer draw accepts its candidate: with a
/// probability in proportion to the candidate's effective balance.
pub open spec fn proposer_accepts(vs: Seq<Validator>, indices: Seq<u64>, seed: Seq<u8>, i: nat) -> bool {
    vs[proposer_candidate(indices, seed, i) as int].effective_balance * MAX_RANDOM_BYTE
        >= MAX_EFFECTIVE_BALANCE * proposer_random_byte(seed, i)
}

/// Whether step `i` is the first step of the draw that accepts.
pub open spec fn is_first_acceptance(vs: Seq<Validator>, indices: Seq<u64>, seed: Seq<u8>, i: nat) -> bool {
    &&& proposer_accepts(vs, indices, seed, i)
    &&& forall|j: nat| j < i ==> !proposer_accepts(vs, indices, seed, j)
}

/// What the proposer draw from `indices` under `seed` may return: the
/// candidate of the first accepting step; `EmptyIndexSet` for no indices;
/// `SamplingExhausted` only where no step of the counter's range accepts.
pub open spec fn proposer_outcome(
    vs: Seq<Validator>,
    indices: Seq<u64>,
    seed: Seq<u8>,
    r: Result<u64, BeaconStateError>,
) -> bool {
    match r {
        Ok(v) => indices.len() > 0 && exists|i: nat|
            i < u64::MAX && is_first_acceptance(vs, indices, seed, i) && v == proposer_candidate(
                indices,
                seed,
                i,
            ),
        Err(e) => if indices.len() == 0 {
            e == BeaconStateError::EmptyIndexSet
        } else {
            e == BeaconStateError::SamplingExhausted && forall|i: nat|
                i < u64::MAX ==> !proposer_accepts(vs, indices, seed, i)
        },
    }
}

/// The seed of the proposer draw at the state's slot.
pub open spec fn proposer_seed_of(s: BeaconState) -> Seq<u8> {
    sha256_of(seed_of(s, current_epoch_of(s), DOMAIN_BEACON_PROPOSER@) + le_bytes(s.slot))
}

/// The total effective balance of the validators active in the current epoch.
pub open spec fn total_active_balance_of(s: BeaconState) -> u64 {
    total_balance_of(s.validators@, active_indices(s.validators@, current_epoch_of(s)))
}

/// The summed effective balance of `indices`, at least one increment.
pub open spec fn total_balance_of(vs: Seq<Validator>, indices: Seq<u64>) -> u64 {
    let sum = effective_balance_sum(vs, indices);
    if sum < EFFECTIVE_BALANCE_INCREMENT {
        EFFECTIVE_BALANCE_INCREMENT
    } else {
        sum as u64
    }
}

/// The fork version in force at `epoch`.
pub open spec fn fork_version_at(s: BeaconState, epoch: u64) -> [u8; 4] {
    if epoch < s.fork.epoch {
        s.fork.previous_version
    } else {
        s.fork.current_version
    }
}

/// The committee for `slot` and committee `index`, or why there is none.
pub open spec fn beacon_committee_of(s: BeaconState, slot: u64, index: u64) -> Result<Seq<u64>, BeaconStateError> {
    let epoch = epoch_at_slot(slot);
    let per_slot = committee_count_of(s, epoch);
    if index >= per_slot {
        Err(BeaconStateError::CommitteeIndexOutOfRange)
    } else {
        Ok(
            committee_members(
                active_indices(s.validators@, epoch),
                seed_of(s, epoch, DOMAIN_BEACON_ATTESTER@),
                ((slot % SLOTS_PER_EPOCH) * per_slot + index) as u64,
                (per_slot * SLOTS_PER_EPOCH) as u64,
            ),
        )
    }
}

/// The members of `committee` whose bit in `bits` is set, positionally, in
/// committee order (first `n` members only).
pub open spec fn selected_members(committee: Seq<u64>, bits: Seq<bool>, n: nat) -> Seq<u64>
    decreases n,
{
    if n == 0 {
        seq![]
    } else {
        let rest = selected_members(committee, bits, (n - 1) as nat);
        if n - 1 < bits.len() && bits[n - 1] {
            rest.push(committee[n - 1])
        } else {
            rest
        }
    }
}

/// The attesting validators of `att`: the selected committee members, each
/// once, in order of first occurrence.
pub open spec fn attesting_indices_of(s: BeaconState, att: Attestation) -> Result<Seq<u64>, BeaconStateError> {
    match beacon_committee_of(s, att.data.slot, att.data.index) {
        Ok(c) => Ok(dedup_first(selected_members(c, att.aggregation_bits@, c.len()))),
        Err(e) => Err(e),
    }
}

/// Sums of effective balances over a prefix never exceed the whole sum.
proof fn lemma_sum_prefix(vs: Seq<Validator>, s: Seq<u64>, i: int)
    requires
        0 <= i <= s.len(),
    ensures
        effective_balance_sum(vs, s.subrange(0, i)) <= effective_balance_sum(vs, s),
        effective_balance_sum(vs, s.subrange(0, i)) >= 0,
    decreases s.len(),
{
    if i == s.len() {
        assert(s.subrange(0, i) =~= s);
        lemma_sum_nonneg(vs, s);
    } else {
        lemma_sum_prefix(vs, s.drop_last(), i);
        assert(s.drop_last().subrange(0, i) =~= s.subrange(0, i));
    }
}

proof fn lemma_sum_nonneg(vs: Seq<Validator>, s: Seq<u64>)
    ensures
        effective_balance_sum(vs, s) >= 0,
    decreases s.len(),
{
    if s.len() > 0 {
        lemma_sum_nonneg(vs, s.drop_last());
    }
}

impl BeaconState {
    /// Draws a validator from `indices`, each with a chance in proportion to
    /// its effective balance, by rejection sampling over the shuffle under `seed`.
    pub fn compute_proposer_index(&self, indices: &[u64], seed: &Root) -> (r: Result<u64, BeaconStateError>)
        requires
            forall|k: int| 0 <= k < indices@.len() ==> indices@[k] < self.validators@.len(),
        ensures
            proposer_outcome(self.validators@, indices@, seed@, r),
    {
        let total: usize = indices.len();
        if total == 0 {
            return Err(BeaconStateError::EmptyIndexSet);
        }
        let ghost vs = self.validators@;
        let nv: usize = self.validators.len();
        let mut i: u64 = 0;
        while i < u64::MAX
            invariant
                nv == vs.len(),
                total == indices@.len(),
                total > 0,
                vs == self.validators@,
                forall|k: int| 0 <= k < indices@.len() ==> indices@[k] < vs.len(),
                forall|j: nat| j < i ==> !proposer_accepts(vs, indices@, seed@, j),
            decreases u64::MAX - i,
        {
            let position = compute_shuffled_index(i % (total as u64), total as u64, seed);
            let candidate_index = indices[position as usize];
            assert(candidate_index < nv);
            let mut input: Vec<u8> = Vec::new();
            append_bytes(&mut input, seed);
            append_le_u64(&mut input, i / 32);
            let hash = sha256(input.as_slice());
            let random_byte = hash[(i % 32) as usize];
            let effective_balance = self.validators[candidate_index as usize].effective_balance;
            assert(candidate_index == proposer_candidate(indices@, seed@, i as nat));
            assert(random_byte == proposer_random_byte(seed@, i as nat));
            if (effective_balance as u128) * (MAX_RANDOM_BYTE as u128) >= (MAX_EFFECTIVE_BALANCE as u128)
                * (random_byte as u128) {
                assert(is_first_acceptance(vs, indices@, seed@, i as nat));
                return Ok(candidate_index);
            }
            i = i + 1;
        }
        Err(BeaconStateError::SamplingExhausted)
    }

    /// Draws the proposer of the state's slot from the current epoch's active set.
    pub fn get_beacon_proposer_index(&self) -> (r: Result<u64, BeaconStateError>)
        requires
            self.wf(),
        ensures
            proposer_outcome(
                self.validators@,
                active_indices(self.validators@, current_epoch_of(*self)),
                proposer_seed_of(*self),
                r,
            ),
    {
        let epoch = self.get_current_epoch();
        let epoch_seed = self.get_seed(epoch, &DOMAIN_BEACON_PROPOSER);
        let mut input: Vec<u8> = Vec::new();
        append_bytes(&mut input, &epoch_seed);
        append_le_u64(&mut input, self.slot);
        let seed = sha256(input.as_slice());
        let indices = self.get_active_validator_indices(epoch);
        let nv: usize = self.validators.len();
        proof {
            lemma_indices_where(nv as nat, active_pred(self.validators@, epoch));
        }
        self.compute_proposer_index(indices.as_slice(), &seed)
    }

    /// Returns the summed effective balance of the validators at `indices`
    /// (a set: each index listed once), and at least one increment, so that
    /// it can divide.
    pub fn get_total_balance(&self, indices: &Vec<u64>) -> (r: u64)
        requires
            forall|k: int| 0 <= k < indices@.len() ==> indices@[k] < self.validators@.len(),
            effective_balance_sum(self.validators@, indices@) <= u64::MAX,
        ensures
            r == total_balance_of(self.validators@, indices@),
            r >= EFFECTIVE_BALANCE_INCREMENT,
    {
        let nv: usize = self.validators.len();
        let mut sum: u64 = 0;
        let mut i: usize = 0;
        while i < indices.len()
            invariant
                nv == self.validators@.len(),
                i <= indices@.len(),
                forall|k: int| 0 <= k < indices@.len() ==> indices@[k] < self.validators@.len(),
                effective_balance_sum(self.validators@, indices@) <= u64::MAX,
                sum == effective_balance_sum(self.validators@, indices@.subrange(0, i as int)),
            decreases indices@.len() - i,
        {
            proof {
                lemma_sum_prefix(self.validators@, indices@, i + 1);
                assert(indices@.subrange(0, i + 1).drop_last() =~= indices@.subrange(0, i as int));
                assert(indices@.subrange(0, i + 1).last() == indices@[i as int]);
            }
            assert(indices@[i as int] < nv);
            sum = sum + self.validators[indices[i] as usize].effective_balance;
            i = i + 1;
        }
        assert(indices@.subrange(0, indices@.len() as int) =~= indices@);
        if sum < EFFECTIVE_BALANCE_INCREMENT {
            EFFECTIVE_BALANCE_INCREMENT
        } else {
            sum
        }
    }

    /// Returns the total effective balance of the current epoch's active set.
    pub fn get_total_active_balance(&self) -> (r: u64)
        requires
            effective_balance_sum(self.validators@, active_indices(self.validators@, current_epoch_of(*self)))
                <= u64::MAX,
        ensures
            r == total_active_balance_of(*self),
            r >= EFFECTIVE_BALANCE_INCREMENT,
    {
        let indices = self.get_active_validator_indices(self.get_current_epoch());
        let nv: usize = self.validators.len();
        proof {
            lemma_indices_where(nv as nat, active_pred(self.validators@, current_epoch_of(*self)));
        }
        self.get_total_balance(&indices)
    }

    /// Returns the signature domain of `domain_type` at `epoch`, the current
    /// epoch where none is given.
    pub fn get_domain(&self, domain_type: &[u8; 4], epoch: Option<u64>) -> (r: Root)
        ensures
            r@ == domain_of(
                domain_type@,
                fork_version_at(
                    *self,
                    match epoch {
                        Some(e) => e,
                        None => current_epoch_of(*self),
                    },
                )@,
                self.genesis_validators_root@,
            ),
    {
        let epoch = match epoch {
            Some(epoch) => epoch,
            None => self.get_current_epoch(),
        };
        let fork_version = if epoch < self.fork.epoch {
            self.fork.previous_version
        } else {
            self.fork.current_version
        };
        compute_domain(domain_type, &fork_version, &self.genesis_validators_root)
    }

    /// Returns committee `index` of `slot`: its share of the epoch's active
    /// set after the attester shuffle.
    pub fn get_beacon_committee(&self, slot: u64, index: u64) -> (r: Result<Vec<u64>, BeaconStateError>)
        requires
            self.wf(),
        ensures
            match r {
                Ok(c) => beacon_committee_of(*self, slot, index) == Ok::<Seq<u64>, BeaconStateError>(c@),
                Err(e) => beacon_committee_of(*self, slot, index) == Err::<Seq<u64>, BeaconStateError>(e),
            },
    {
        let epoch = compute_epoch_at_slot(slot);
        let committees_per_slot = self.get_committee_count_per_slot(epoch);
        if index >= committees_per_slot {
            return Err(BeaconStateError::CommitteeIndexOutOfRange);
        }
        let indices = self.get_active_validator_indices(epoch);
        let seed = self.get_seed(epoch, &DOMAIN_BEACON_ATTESTER);
        assert((slot % SLOTS_PER_EPOCH) * committees_per_slot + index < committees_per_slot * SLOTS_PER_EPOCH)
            by (nonlinear_arith)
            requires
                slot % SLOTS_PER_EPOCH < SLOTS_PER_EPOCH,
                index < committees_per_slot,
                committees_per_slot <= MAX_COMMITTEES_PER_SLOT,
        {
            assert((slot % SLOTS_PER_EPOCH) * committees_per_slot <= 31 * committees_per_slot);
        }
        let c = compute_committee(
            &indices,
            &seed,
            (slot % SLOTS_PER_EPOCH) * committees_per_slot + index,
            committees_per_slot * SLOTS_PER_EPOCH,
        );
        Ok(c)
    }

    /// Returns the validators whose bit is set in the attestation, each once,
    /// in committee order.
    pub fn get_attesting_indices(&self, attestation: Attestation) -> (r: Result<Vec<u64>, BeaconStateError>)
        requires
            self.wf(),
        ensures
            match r {
                Ok(v) => attesting_indices_of(*self, attestation) == Ok::<Seq<u64>, BeaconStateError>(v@),
                Err(e) => attesting_indices_of(*self, attestation) == Err::<Seq<u64>, BeaconStateError>(e),
            },
    {
        let committee = match self.get_beacon_committee(attestation.data.slot, attestation.data.index) {
            Ok(c) => c,
            Err(e) => return Err(e),
        };
        let bits = &attestation.aggregation_bits;
        let mut selected: Vec<u64> = Vec::new();
        let mut i: usize = 0;
        while i < committee.len()
            invariant
                i <= committee@.len(),
                bits@ == attestation.aggregation_bits@,
                selected@ == selected_members(committee@, bits@, i as nat),
            decreases committee@.len() - i,
        {
            if i < bits.len() && bits[i] {
                selected.push(committee[i]);
            }
            i = i + 1;
        }
        Ok(unique_in_order(selected))
    }

    /// Returns the attestation in canonical form: its attesting validators
    /// in ascending order, with its data and signature.
    pub fn get_indexed_attestation(&self, attestation: Attestation) -> (r: Result<IndexedAttestation, BeaconStateError>)
        requires
            self.wf(),
        ensures
            match r {
                Ok(ia) => {
                    &&& attesting_indices_of(*self, attestation) is Ok
                    &&& ia.attesting_indices@.to_multiset() == attesting_indices_of(
                        *self,
                        attestation,
                    )->Ok_0.to_multiset()
                    &&& is_sorted(ia.attesting_indices@)
                    &&& ia.data == attestation.data
                    &&& ia.signature@ == attestation.signature@
                },
                Err(e) => attesting_indices_of(*self, attestation) == Err::<Seq<u64>, BeaconStateError>(e),
            },
    {
        let Attestation { aggregation_bits, data, signature } = attestation;
        let bits_only = Attestation { aggregation_bits, data, signature: Vec::new() };
        let mut attesting_indices = match self.get_attesting_indices(bits_only) {
            Ok(v) => v,
            Err(e) => return Err(e),
        };
        sort_ascending(&mut attesting_indices);
        Ok(IndexedAttestation { attesting_indices, data, signature })
    }
}

/// `balances` after crediting `delta` at `index`: checked addition, so an
/// index out of range or a sum past `u64::MAX` leaves them as they are.
pub open spec fn credited(balances: Seq<u64>, index: u64, delta: u64) -> Seq<u64> {
    if index < balances.len() && balances[index as int] + delta <= u64::MAX {
        balances.update(index as int, (balances[index as int] + delta) as u64)
    } else {
        balances
    }
}

/// `balances` after debiting `delta` at `index`, floored at zero; an index
/// out of range leaves them as they are.
pub open spec fn debited(balances: Seq<u64>, index: u64, delta: u64) -> Seq<u64> {
    if index < balances.len() {
        balances.update(
            index as int,
            if balances[index as int] >= delta {
                (balances[index as int] - delta) as u64
            } else {
                0
            },
        )
    } else {
        balances
    }
}

/// The latest finite exit epoch among `vs`, and at least `floor`.
pub open spec fn max_exit_epoch(vs: Seq<Validator>, floor: u64) -> u64
    decreases vs.len(),
{
    if vs.len() == 0 {
        floor
    } else {
        let m = max_exit_epoch(vs.drop_last(), floor);
        let e = vs.last().exit_epoch;
        if e != FAR_FUTURE_EPOCH && e > m {
            e
        } else {
            m
        }
    }
}

/// How many of `vs` exit at `epoch`.
pub open spec fn exit_count(vs: Seq<Validator>, epoch: u64) -> nat
    decreases vs.len(),
{
    if vs.len() == 0 {
        0
    } else {
        exit_count(vs.drop_last(), epoch) + if vs.last().exit_epoch == epoch {
            1nat
        } else {
            0nat
        }
    }
}

/// The epoch at which the queue would take in one more exit: the latest
/// exit epoch so far (at least the activation-exit epoch of now), or the
/// next one where that epoch has met the churn limit.
pub open spec fn exit_queue_epoch_of(s: BeaconState) -> u64 {
    let base = max_exit_epoch(s.validators@, (current_epoch_of(s) + 1 + MAX_SEED_LOOKAHEAD) as u64);
    if exit_count(s.validators@, base) >= churn_limit_of(s) {
        (base + 1) as u64
    } else {
        base
    }
}

/// Whether every exit epoch that is set lies before the last two epochs
/// of the `u64` range, so that the queue never reaches `FAR_FUTURE_EPOCH`.
pub open spec fn exit_epochs_bounded(vs: Seq<Validator>) -> bool {
    forall|k: int|
        0 <= k < vs.len() && vs[k].exit_epoch != FAR_FUTURE_EPOCH ==> vs[k].exit_epoch < FAR_FUTURE_EPOCH - 1
}

/// `a + b`, or `u64::MAX` where it does not fit.
pub open spec fn saturating_sum(a: u64, b: u64) -> u64 {
    if a + b > u64::MAX {
        u64::MAX
    } else {
        (a + b) as u64
    }
}

/// The registry after validator `index` enters the exit queue; unchanged
/// where there is no such validator or it has already initiated its exit.
pub open spec fn exited_validators(s: BeaconState, index: u64) -> Seq<Validator> {
    let vs = s.validators@;
    if index >= vs.len() || vs[index as int].exit_epoch != FAR_FUTURE_EPOCH {
        vs
    } else {
        let q = exit_queue_epoch_of(s);
        vs.update(
            index as int,
            Validator {
                exit_epoch: q,
                withdrawable_epoch: saturating_sum(q, MIN_VALIDATOR_WITHDRAWABILITY_DELAY),
                ..vs[index as int]
            },
        )
    }
}

pub proof fn lemma_max_exit_epoch_finite(vs: Seq<Validator>, floor: u64)
    requires
        floor < FAR_FUTURE_EPOCH,
    ensures
        max_exit_epoch(vs, floor) < FAR_FUTURE_EPOCH,
        max_exit_epoch(vs, floor) >= floor,
        forall|k: int|
            0 <= k < vs.len() && vs[k].exit_epoch != FAR_FUTURE_EPOCH ==> vs[k].exit_epoch
                <= max_exit_epoch(vs, floor),
    decreases vs.len(),
{
    if vs.len() > 0 {
        lemma_max_exit_epoch_finite(vs.drop_last(), floor);
        assert forall|k: int|
            0 <= k < vs.len() && vs[k].exit_epoch != FAR_FUTURE_EPOCH implies vs[k].exit_epoch
                <= max_exit_epoch(vs, floor) by {
            if k < vs.len() - 1 {
                assert(vs.drop_last()[k] == vs[k]);
            }
        }
    }
}

/// The reward owed to the whistleblower for slashing a validator of
/// effective balance `b`, the proposer's share included.
pub open spec fn whistleblower_reward_of(b: u64) -> u64 {
    (b / WHISTLEBLOWER_REWARD_QUOTIENT) as u64
}

/// The proposer's share of the whistleblower reward.
pub open spec fn proposer_share_of(b: u64) -> u64 {
    (whistleblower_reward_of(b) * PROPOSER_WEIGHT / (WEIGHT_DENOMINATOR as int)) as u64
}

/// The proposer's share and the whistleblower's remainder add up to the
/// whole whistleblower reward, and neither is negative.
pub proof fn lemma_slashing_rewards_partition(b: u64)
    ensures
        proposer_share_of(b) <= whistleblower_reward_of(b),
        proposer_share_of(b) + (whistleblower_reward_of(b) - proposer_share_of(b)) == b
            / WHISTLEBLOWER_REWARD_QUOTIENT,
{
}

/// Whether bit `flag_index` is set in `flags`.
pub open spec fn flag_set(flags: u8, flag_index: u8) -> bool {
    flags & (1u8 << flag_index) == (1u8 << flag_index)
}

/// The participation record that belongs to `epoch`: the current epoch's,
/// or else the previous epoch's.
pub open spec fn participation_of(s: BeaconState, epoch: u64) -> Seq<u8> {
    if epoch == current_epoch_of(s) {
        s.current_epoch_participation@
    } else {
        s.previous_epoch_participation@
    }
}

/// Whether validator `i` was active at `epoch`, has `flag_index` set in that
/// epoch's record, and is not slashed.
pub open spec fn participant_pred(s: BeaconState, flag_index: u8, epoch: u64) -> spec_fn(int) -> bool {
    |i: int|
        is_active(s.validators@[i], epoch) && flag_set(participation_of(s, epoch)[i], flag_index)
            && !s.validators@[i].slashed
}

/// Whether validator `i` counts for rewards and penalties of the previous
/// epoch: active then, or slashed and not yet withdrawable.
pub open spec fn eligible_pred(s: BeaconState) -> spec_fn(int) -> bool {
    |i: int|
        is_active(s.validators@[i], previous_epoch_of(s)) || (s.validators@[i].slashed
            && previous_epoch_of(s) + 1 < s.validators@[i].withdrawable_epoch)
}

/// Whether finality has stalled long enough for the inactivity leak.
pub open spec fn in_inactivity_leak(s: BeaconState) -> bool {
    previous_epoch_of(s) - s.finalized_checkpoint.epoch > MIN_EPOCHS_TO_INACTIVITY_PENALTY
}

/// The inactivity score of eligible validator `k` after one epoch's update.
pub open spec fn updated_score(s: BeaconState, k: int) -> u64 {
    let score = s.inactivity_scores@[k];
    let after = if participant_pred(s, TIMELY_TARGET_FLAG_INDEX, previous_epoch_of(s))(k) {
        if score >= 1 {
            (score - 1) as u64
        } else {
            0
        }
    } else {
        saturating_sum(score, INACTIVITY_SCORE_BIAS)
    };
    if !in_inactivity_leak(s) {
        if after >= INACTIVITY_SCORE_RECOVERY_RATE {
            (after - INACTIVITY_SCORE_RECOVERY_RATE) as u64
        } else {
            0
        }
    } else {
        after
    }
}

impl BeaconState {
    /// Adds `delta` to the balance at `index`: checked addition, so nothing
    /// changes where the index is out of range or the sum would overflow.
    pub fn increase_balance(&mut self, index: u64, delta: u64)
        ensures
            final(self).balances@ == credited(old(self).balances@, index, delta),
            *final(self) == (BeaconState { balances: final(self).balances, ..*old(self) }),
    {
        if index < self.balances.len() as u64 {
            let b = self.balances[index as usize];
            if let Some(sum) = b.checked_add(delta) {
                self.balances.set(index as usize, sum);
            }
        }
    }

    /// Takes `delta` from the balance at `index`, floored at zero; nothing
    /// changes where the index is out of range.
    pub fn decrease_balance(&mut self, index: u64, delta: u64)
        ensures
            final(self).balances@ == debited(old(self).balances@, index, delta),
            *final(self) == (BeaconState { balances: final(self).balances, ..*old(self) }),
    {
        if index < self.balances.len() as u64 {
            let b = self.balances[index as usize];
            self.balances.set(index as usize, b.saturating_sub(delta));
        }
    }

    /// Puts validator `index` in the exit queue, under the churn limit, and
    /// sets when it can withdraw; does nothing where there is no such
    /// validator or it has already initiated its exit.
    pub fn initiate_validator_exit(&mut self, index: u64)
        requires
            exit_epochs_bounded(old(self).validators@),
        ensures
            final(self).validators@ == exited_validators(*old(self), index),
            *final(self) == (BeaconState { validators: final(self).validators, ..*old(self) }),
    {
        let n: usize = self.validators.len();
        if index >= n as u64 {
            return;
        }
        if self.validators[index as usize].exit_epoch != FAR_FUTURE_EPOCH {
            return;
        }
        let ghost vs = self.validators@;
        let floor = compute_activation_exit_epoch(self.get_current_epoch());
        let mut exit_queue_epoch: u64 = floor;
        let mut i: usize = 0;
        while i < n
            invariant
                n == vs.len(),
                vs == self.validators@,
                i <= n,
                floor < FAR_FUTURE_EPOCH,
                exit_queue_epoch == max_exit_epoch(vs.subrange(0, i as int), floor),
            decreases n - i,
        {
            assert(vs.subrange(0, i + 1).drop_last() =~= vs.subrange(0, i as int));
            let e = self.validators[i].exit_epoch;
            if e != FAR_FUTURE_EPOCH && e > exit_queue_epoch {
                exit_queue_epoch = e;
            }
            i = i + 1;
        }
        assert(vs.subrange(0, n as int) =~= vs);
        proof {
            lemma_max_exit_epoch_finite(vs, floor);
        }
        let mut churn: u64 = 0;
        let mut j: usize = 0;
        while j < n
            invariant
                n == vs.len(),
                vs == self.validators@,
                j <= n,
                churn == exit_count(vs.subrange(0, j as int), exit_queue_epoch),
                churn <= j,
            decreases n - j,
        {
            assert(vs.subrange(0, j + 1).drop_last() =~= vs.subrange(0, j as int));
            if self.validators[j].exit_epoch == exit_queue_epoch {
                churn = churn + 1;
            }
            j = j + 1;
        }
        assert(vs.subrange(0, n as int) =~= vs);
        if churn >= self.get_validator_churn_limit() {
            exit_queue_epoch = exit_queue_epoch + 1;
        }
        let mut v = self.validators[index as usize];
        v.exit_epoch = exit_queue_epoch;
        v.withdrawable_epoch = exit_queue_epoch.saturating_add(MIN_VALIDATOR_WITHDRAWABILITY_DELAY);
        self.validators.set(index as usize, v);
    }

    /// Slashes validator `slashed_index`: forces its exit, marks it slashed,
    /// delays its withdrawal, records its effective balance in the slashings
    /// ring, takes the minimum penalty, and pays the proposer and the
    /// whistleblower (the proposer where none is given).
    pub fn slash_validator(&mut self, slashed_index: u64, whistleblower_index: Option<u64>) -> (r: Result<
        (),
        BeaconStateError,
    >)
        requires
            old(self).wf(),
            exit_epochs_bounded(old(self).validators@),
            slashed_index < old(self).validators@.len() ==> old(self).slashings@[(current_epoch_of(
                *old(self),
            ) % EPOCHS_PER_SLASHINGS_VECTOR) as int]
                + old(self).validators@[slashed_index as int].effective_balance <= u64::MAX,
        ensures
            final(self).wf(),
            slashed_index >= old(self).validators@.len() ==> r == Err::<(), BeaconStateError>(
                BeaconStateError::ValidatorNotFound,
            ) && *final(self) == *old(self),
            slashed_index < old(self).validators@.len() ==> ({
                let epoch = current_epoch_of(*old(self));
                let b = old(self).validators@[slashed_index as int].effective_balance;
                let exited = exited_validators(*old(self), slashed_index);
                let e = exited[slashed_index as int];
                let vs = final(self).validators@;
                let penalised = debited(old(self).balances@, slashed_index, b / MIN_SLASHING_PENALTY_QUOTIENT);
                let proposers = active_indices(vs, epoch);
                &&& vs == exited.update(
                    slashed_index as int,
                    Validator {
                        slashed: true,
                        withdrawable_epoch: if e.withdrawable_epoch > epoch + EPOCHS_PER_SLASHINGS_VECTOR {
                            e.withdrawable_epoch
                        } else {
                            (epoch + EPOCHS_PER_SLASHINGS_VECTOR) as u64
                        },
                        ..e
                    },
                )
                &&& final(self).slashings@ == old(self).slashings@.update(
                    (epoch % EPOCHS_PER_SLASHINGS_VECTOR) as int,
                    (old(self).slashings@[(epoch % EPOCHS_PER_SLASHINGS_VECTOR) as int] + b) as u64,
                )
                &&& final(self).slot == old(self).slot
                &&& final(self).randao_mixes == old(self).randao_mixes
                &&& match r {
                    Ok(_) => exists|p: u64|
                        proposer_outcome(vs, proposers, proposer_seed_of(*final(self)), Ok(p))
                            && final(self).balances@ == credited(
                            credited(penalised, p, proposer_share_of(b)),
                            match whistleblower_index {
                                Some(w) => w,
                                None => p,
                            },
                            (whistleblower_reward_of(b) - proposer_share_of(b)) as u64,
                        ),
                    Err(err) => proposer_outcome(vs, proposers, proposer_seed_of(*final(self)), Err(err))
                        && final(self).balances@ == penalised,
                }
            }),
    {
        let epoch = self.get_current_epoch();
        if slashed_index >= self.validators.len() as u64 {
            return Err(BeaconStateError::ValidatorNotFound);
        }
        self.initiate_validator_exit(slashed_index);
        let mut v = self.validators[slashed_index as usize];
        v.slashed = true;
        if v.withdrawable_epoch <= epoch + EPOCHS_PER_SLASHINGS_VECTOR {
            v.withdrawable_epoch = epoch + EPOCHS_PER_SLASHINGS_VECTOR;
        }
        let b = v.effective_balance;
        self.validators.set(slashed_index as usize, v);
        let ring = (epoch % EPOCHS_PER_SLASHINGS_VECTOR) as usize;
        let total = self.slashings[ring] + b;
        self.slashings.set(ring, total);
        self.decrease_balance(slashed_index, b / MIN_SLASHING_PENALTY_QUOTIENT);
        let ghost mid = *self;
        let proposer_index = match self.get_beacon_proposer_index() {
            Ok(p) => p,
            Err(e) => return Err(e),
        };
        let whistleblower_index = match whistleblower_index {
            Some(w) => w,
            None => proposer_index,
        };
        let whistleblower_reward = b / WHISTLEBLOWER_REWARD_QUOTIENT;
        let proposer_reward = whistleblower_reward * PROPOSER_WEIGHT / WEIGHT_DENOMINATOR;
        self.increase_balance(proposer_index, proposer_reward);
        self.increase_balance(whistleblower_index, whistleblower_reward - proposer_reward);
        assert(proposer_seed_of(*self) == proposer_seed_of(mid));
        assert(proposer_reward == proposer_share_of(b));
        assert(whistleblower_reward == whistleblower_reward_of(b));
        assert(self.balances@ == credited(
            credited(mid.balances@, proposer_index, proposer_share_of(b)),
            whistleblower_index,
            (whistleblower_reward_of(b) - proposer_share_of(b)) as u64,
        ));
        assert(mid.balances@ == debited(old(self).balances@, slashed_index, b / MIN_SLASHING_PENALTY_QUOTIENT));
        assert(self.slot == old(self).slot);
        assert(self.randao_mixes == old(self).randao_mixes);
        assert(proposer_outcome(
            self.validators@,
            active_indices(self.validators@, epoch),
            proposer_seed_of(*self),
            Ok(proposer_index),
        ));
        Ok(())
    }

    /// Whether the state may serve as genesis: late enough, and with enough
    /// validators active at the genesis epoch.
    pub fn is_valid_genesis_state(&self) -> (r: bool)
        ensures
            r == (self.genesis_time >= MIN_GENESIS_TIME && active_indices(self.validators@, GENESIS_EPOCH).len()
                >= MIN_GENESIS_ACTIVE_VALIDATOR_COUNT),
    {
        if self.genesis_time < MIN_GENESIS_TIME {
            return false;
        }
        if (self.get_active_validator_indices(GENESIS_EPOCH).len() as u64) < MIN_GENESIS_ACTIVE_VALIDATOR_COUNT {
            return false;
        }
        true
    }

    /// Returns `flags` with bit `flag_index` set.
    pub fn add_flag(flags: u8, flag_index: u8) -> (r: u8)
        requires
            flag_index < 8,
        ensures
            r == flags | (1u8 << flag_index),
    {
        let flag: u8 = 1u8 << flag_index;
        flags | flag
    }

    /// Whether bit `flag_index` is set in `flags`.
    pub fn has_flag(flags: u8, flag_index: u8) -> (r: bool)
        requires
            flag_index < 8,
        ensures
            r == flag_set(flags, flag_index),
    {
        let flag: u8 = 1u8 << flag_index;
        flags & flag == flag
    }
}

/// A flag just added is set, and adding it keeps every flag that was set.
pub proof fn lemma_add_flag_sets(flags: u8, flag_index: u8, other: u8)
    requires
        flag_index < 8,
        other < 8,
    ensures
        flag_set(flags | (1u8 << flag_index), flag_index),
        flag_set(flags, other) ==> flag_set(flags | (1u8 << flag_index), other),
        other != flag_index ==> (flag_set(flags | (1u8 << flag_index), other) == flag_set(flags, other)),
{
    assert(flag_set(flags | (1u8 << flag_index), flag_index)) by (bit_vector)
        requires
            flag_index < 8,
    ;
    assert(flag_set(flags, other) ==> flag_set(flags | (1u8 << flag_index), other)) by (bit_vector)
        requires
            flag_index < 8,
            other < 8,
    ;
    assert(other != flag_index ==> (flag_set(flags | (1u8 << flag_index), other) == flag_set(flags, other)))
        by (bit_vector)
        requires
            flag_index < 8,
            other < 8,
    ;
}

/// The flags that an attestation earns for `data` at `inclusion_delay`, or
/// why it earns none: its source must be the justified checkpoint; its
/// target and head must match the recorded block roots.
pub open spec fn participation_flags_of(
    s: BeaconState,
    data: AttestationData,
    inclusion_delay: u64,
) -> Result<Seq<u8>, BeaconStateError> {
    let justified = if data.target.epoch == current_epoch_of(s) {
        s.current_justified_checkpoint
    } else {
        s.previous_justified_checkpoint
    };
    let matching_source = data.source.epoch == justified.epoch && data.source.root@ == justified.root@;
    if !matching_source {
        Err(BeaconStateError::SourceMismatch)
    } else {
        match block_root_at_slot_of(s, data.target.epoch * SLOTS_PER_EPOCH) {
            Err(e) => Err(e),
            Ok(target_root) => if data.target.root@ != target_root@ {
                Ok(earned_flags(true, false, false, inclusion_delay))
            } else {
                match block_root_at_slot_of(s, data.slot as int) {
                    Err(e) => Err(e),
                    Ok(head_root) => Ok(
                        earned_flags(true, true, data.beacon_block_root@ == head_root@, inclusion_delay),
                    ),
                }
            },
        }
    }
}

/// The flags earned for matching source, target and head at `delay`: source
/// within the square root of an epoch's slots, target within an epoch, head
/// at exactly the minimum delay.
pub open spec fn earned_flags(source: bool, target: bool, head: bool, delay: u64) -> Seq<u8> {
    (if source && delay * delay <= SLOTS_PER_EPOCH {
        seq![TIMELY_SOURCE_FLAG_INDEX]
    } else {
        seq![]
    }) + (if target && delay <= SLOTS_PER_EPOCH {
        seq![TIMELY_TARGET_FLAG_INDEX]
    } else {
        seq![]
    }) + (if head && delay == MIN_ATTESTATION_INCLUSION_DELAY {
        seq![TIMELY_HEAD_FLAG_INDEX]
    } else {
        seq![]
    })
}

/// The inactivity penalty of validator `k`: owed where it is eligible and
/// missed the timely target in the previous epoch.
pub open spec fn inactivity_penalty_of(s: BeaconState, k: int) -> u64 {
    if eligible_pred(s)(k) && !participant_pred(s, TIMELY_TARGET_FLAG_INDEX, previous_epoch_of(s))(k) {
        (s.validators@[k].effective_balance * s.inactivity_scores@[k] / (INACTIVITY_SCORE_BIAS
            * INACTIVITY_PENALTY_QUOTIENT_ALTAIR) as int) as u64
    } else {
        0
    }
}

/// The reward per increment of effective balance.
pub open spec fn base_reward_per_increment_of(s: BeaconState, root: nat) -> u64 {
    ((EFFECTIVE_BALANCE_INCREMENT * BASE_REWARD_FACTOR) as int / (root as int)) as u64
}

proof fn lemma_floor_sqrt_unique(n: nat, a: nat, b: nat)
    requires
        is_floor_sqrt(n, a),
        is_floor_sqrt(n, b),
    ensures
        a == b,
{
    if a < b {
        assert((a + 1) * (a + 1) <= b * b) by (nonlinear_arith)
            requires
                a + 1 <= b,
        ;
    } else if b < a {
        assert((b + 1) * (b + 1) <= a * a) by (nonlinear_arith)
            requires
                b + 1 <= a,
        ;
    }
}

impl BeaconState {
    fn is_target_participant(&self, k: usize) -> (r: bool)
        requires
            self.wf(),
            k < self.validators@.len(),
        ensures
            r == participant_pred(*self, TIMELY_TARGET_FLAG_INDEX, previous_epoch_of(*self))(k as int),
    {
        let prev = self.get_previous_epoch();
        let flags = if prev == self.get_current_epoch() {
            self.current_epoch_participation[k]
        } else {
            self.previous_epoch_participation[k]
        };
        let v = self.validators[k];
        v.activation_epoch <= prev && prev < v.exit_epoch && Self::has_flag(flags, TIMELY_TARGET_FLAG_INDEX) && !v.slashed
    }

    fn is_eligible(&self, k: usize) -> (r: bool)
        requires
            k < self.validators@.len(),
        ensures
            r == eligible_pred(*self)(k as int),
    {
        let prev = self.get_previous_epoch();
        let v = self.validators[k];
        (v.activation_epoch <= prev && prev < v.exit_epoch) || (v.slashed && (prev as u128) + 1
            < v.withdrawable_epoch as u128)
    }

    /// Returns the validators active at `epoch` that have `flag_index` set in
    /// that epoch's record and are not slashed, ascending; `epoch` must be
    /// the current or the previous epoch.
    pub fn get_unslashed_participating_indices(&self, flag_index: u8, epoch: u64) -> (r: Result<
        Vec<u64>,
        BeaconStateError,
    >)
        requires
            self.wf(),
            flag_index < 8,
        ensures
            epoch != previous_epoch_of(*self) && epoch != current_epoch_of(*self) ==> r == Err::<
                Vec<u64>,
                BeaconStateError,
            >(BeaconStateError::InvalidEpoch),
            epoch == previous_epoch_of(*self) || epoch == current_epoch_of(*self) ==> r is Ok
                && r->Ok_0@ == indices_where(self.validators@.len(), participant_pred(*self, flag_index, epoch)),
    {
        let current = self.get_current_epoch();
        if epoch != self.get_previous_epoch() && epoch != current {
            return Err(BeaconStateError::InvalidEpoch);
        }
        let ghost vs = self.validators@;
        let mut r: Vec<u64> = Vec::new();
        let mut i: usize = 0;
        while i < self.validators.len()
            invariant
                self.wf(),
                vs == self.validators@,
                current == current_epoch_of(*self),
                flag_index < 8,
                i <= vs.len(),
                r@ == indices_where(i as nat, participant_pred(*self, flag_index, epoch)),
            decreases vs.len() - i,
        {
            let flags = if epoch == current {
                self.current_epoch_participation[i]
            } else {
                self.previous_epoch_participation[i]
            };
            let v = self.validators[i];
            if v.activation_epoch <= epoch && epoch < v.exit_epoch && Self::has_flag(flags, flag_index)
                && !v.slashed {
                r.push(i as u64);
            }
            i = i + 1;
        }
        Ok(r)
    }

    /// Updates the inactivity scores of the eligible validators after an
    /// epoch: down by one for a timely target, up by the bias otherwise, and
    /// down by the recovery rate outside an inactivity leak. Nothing changes
    /// in the genesis epoch.
    pub fn process_inactivity_updates(&mut self) -> (r: Result<(), BeaconStateError>)
        requires
            old(self).wf(),
        ensures
            r is Ok,
            final(self).wf(),
            *final(self) == (BeaconState { inactivity_scores: final(self).inactivity_scores, ..*old(self) }),
            final(self).inactivity_scores@.len() == old(self).inactivity_scores@.len(),
            forall|k: int|
                0 <= k < old(self).validators@.len() ==> final(self).inactivity_scores@[k] == if current_epoch_of(
                    *old(self),
                ) != GENESIS_EPOCH && eligible_pred(*old(self))(k) {
                    updated_score(*old(self), k)
                } else {
                    old(self).inactivity_scores@[k]
                },
    {
        if self.get_current_epoch() == GENESIS_EPOCH {
            return Ok(());
        }
        let ghost start = *self;
        let leak = self.is_in_inactivity_leak();
        let n: usize = self.validators.len();
        let mut k: usize = 0;
        while k < n
            invariant
                self.wf(),
                n == self.validators@.len(),
                k <= n,
                leak == in_inactivity_leak(start),
                *self == (BeaconState { inactivity_scores: self.inactivity_scores, ..start }),
                self.inactivity_scores@.len() == n,
                forall|t: int|
                    0 <= t < n ==> self.inactivity_scores@[t] == if t < k && eligible_pred(start)(t) {
                        updated_score(start, t)
                    } else {
                        start.inactivity_scores@[t]
                    },
            decreases n - k,
        {
            assert(eligible_pred(*self) == eligible_pred(start));
            assert(participant_pred(*self, TIMELY_TARGET_FLAG_INDEX, previous_epoch_of(*self))
                == participant_pred(start, TIMELY_TARGET_FLAG_INDEX, previous_epoch_of(start)));
            if self.is_eligible(k) {
                let mut score = self.inactivity_scores[k];
                if self.is_target_participant(k) {
                    if score >= 1 {
                        score = score - 1;
                    }
                } else {
                    score = score.saturating_add(INACTIVITY_SCORE_BIAS);
                }
                if !leak {
                    score = score.saturating_sub(INACTIVITY_SCORE_RECOVERY_RATE);
                }
                self.inactivity_scores.set(k, score);
            }
            k = k + 1;
        }
        Ok(())
    }

    /// Returns the reward per increment of effective balance: a fixed factor
    /// over the integer square root of the total active balance.
    pub fn get_base_reward_per_increment(&self) -> (r: u64)
        requires
            effective_balance_sum(self.validators@, active_indices(self.validators@, current_epoch_of(*self)))
                <= u64::MAX,
        ensures
            exists|q: nat| is_floor_sqrt(total_active_balance_of(*self) as nat, q),
            forall|q: nat|
                is_floor_sqrt(total_active_balance_of(*self) as nat, q) ==> r == base_reward_per_increment_of(*self, q),
            r <= 2_023_907,
    {
        let total = self.get_total_active_balance();
        let root = integer_squareroot(total);
        if root < 31622 {
            proof {
                lemma_mul_upper_bound(root + 1, 31622, root + 1, 31622);
            }
        }
        assert(root >= 31622);
        proof {
            assert(is_floor_sqrt(total as nat, root as nat));
            assert forall|q: nat| is_floor_sqrt(total as nat, q) implies q == root by {
                lemma_floor_sqrt_unique(total as nat, q, root as nat);
            }
        }
        let r = EFFECTIVE_BALANCE_INCREMENT * BASE_REWARD_FACTOR / root;
        proof {
            lemma_div_is_ordered_by_denominator(64_000_000_000, 31622, root as int);
            lemma_fundamental_div_mod_converse(64_000_000_000, 31622, 2_023_907, 12846);
            assert(r as int == 64_000_000_000int / (root as int));
        }
        r
    }

    /// Returns the base reward of validator `index`: its whole increments of
    /// effective balance times the reward per increment.
    pub fn get_base_reward(&self, index: u64) -> (r: u64)
        requires
            index < self.validators@.len(),
            effective_balance_sum(self.validators@, active_indices(self.validators@, current_epoch_of(*self)))
                <= u64::MAX,
        ensures
            forall|q: nat|
                is_floor_sqrt(total_active_balance_of(*self) as nat, q) ==> r == self.validators@[index as int].effective_balance
                    / EFFECTIVE_BALANCE_INCREMENT * base_reward_per_increment_of(*self, q),
    {
        let nv: usize = self.validators.len();
        assert(index < nv);
        let increments = self.validators[index as usize].effective_balance / EFFECTIVE_BALANCE_INCREMENT;
        let per_increment = self.get_base_reward_per_increment();
        proof {
            lemma_mul_upper_bound(increments as int, 18_446_744_073, per_increment as int, 2_023_907);
        }
        increments * per_increment
    }

    /// Returns the proposer's reward for including validator `attesting_index`.
    pub fn get_proposer_reward(&self, attesting_index: u64) -> (r: u64)
        requires
            attesting_index < self.validators@.len(),
            effective_balance_sum(self.validators@, active_indices(self.validators@, current_epoch_of(*self)))
                <= u64::MAX,
        ensures
            forall|q: nat|
                is_floor_sqrt(total_active_balance_of(*self) as nat, q) ==> r == self.validators@[attesting_index as int].effective_balance
                    / EFFECTIVE_BALANCE_INCREMENT * base_reward_per_increment_of(*self, q)
                    / (PROPOSER_REWARD_QUOTIENT as int),
    {
        self.get_base_reward(attesting_index) / PROPOSER_REWARD_QUOTIENT
    }

    /// Returns how many epochs the previous epoch lies past the finalized one.
    pub fn get_finality_delay(&self) -> (r: u64)
        requires
            self.finalized_checkpoint.epoch <= previous_epoch_of(*self),
        ensures
            r == previous_epoch_of(*self) - self.finalized_checkpoint.epoch,
    {
        self.get_previous_epoch() - self.finalized_checkpoint.epoch
    }

    /// Whether finality has stalled long enough for the inactivity leak.
    pub fn is_in_inactivity_leak(&self) -> (r: bool)
        ensures
            r == in_inactivity_leak(*self),
    {
        let prev = self.get_previous_epoch();
        prev > self.finalized_checkpoint.epoch && prev - self.finalized_checkpoint.epoch
            > MIN_EPOCHS_TO_INACTIVITY_PENALTY
    }

    /// Returns the validators that count for rewards and penalties of the
    /// previous epoch, ascending.
    pub fn get_eligible_validator_indices(&self) -> (r: Result<Vec<u64>, BeaconStateError>)
        ensures
            r is Ok,
            r->Ok_0@ == indices_where(self.validators@.len(), eligible_pred(*self)),
    {
        let ghost vs = self.validators@;
        let mut r: Vec<u64> = Vec::new();
        let mut i: usize = 0;
        while i < self.validators.len()
            invariant
                vs == self.validators@,
                i <= vs.len(),
                r@ == indices_where(i as nat, eligible_pred(*self)),
            decreases vs.len() - i,
        {
            if self.is_eligible(i) {
                r.push(i as u64);
            }
            i = i + 1;
        }
        Ok(r)
    }

    /// Returns the index that the next validator to join will have.
    pub fn get_index_for_new_validator(&self) -> (r: u64)
        ensures
            r == self.validators@.len(),
    {
        self.validators.len() as u64
    }

    /// Returns the participation flags that an attestation with `data`
    /// earns when included `inclusion_delay` slots late.
    pub fn get_attestation_participation_flag_indices(
        &self,
        data: AttestationData,
        inclusion_delay: u64,
    ) -> (r: Result<Vec<u8>, BeaconStateError>)
        requires
            self.wf(),
        ensures
            match r {
                Ok(f) => participation_flags_of(*self, data, inclusion_delay) == Ok::<Seq<u8>, BeaconStateError>(f@),
                Err(e) => participation_flags_of(*self, data, inclusion_delay) == Err::<Seq<u8>, BeaconStateError>(e),
            },
    {
        let justified = if data.target.epoch == self.get_current_epoch() {
            self.current_justified_checkpoint
        } else {
            self.previous_justified_checkpoint
        };
        let matching_source = data.source.epoch == justified.epoch && roots_equal(&data.source.root, &justified.root);
        if !matching_source {
            return Err(BeaconStateError::SourceMismatch);
        }
        let matching_target = match self.get_block_root(data.target.epoch) {
            Ok(root) => roots_equal(&data.target.root, &root),
            Err(e) => return Err(e),
        };
        let matching_head = if matching_target {
            match self.get_block_root_at_slot(data.slot) {
                Ok(root) => roots_equal(&data.beacon_block_root, &root),
                Err(e) => return Err(e),
            }
        } else {
            false
        };
        let sqrt_slots = integer_squareroot(SLOTS_PER_EPOCH);
        assert(sqrt_slots == 5) by (nonlinear_arith)
            requires
                sqrt_slots * sqrt_slots <= 32,
                32 < (sqrt_slots + 1) * (sqrt_slots + 1),
        {
            if sqrt_slots >= 6 {
                assert(sqrt_slots * sqrt_slots >= 36) by (nonlinear_arith)
                    requires
                        sqrt_slots >= 6,
                ;
            }
            if sqrt_slots <= 4 {
                lemma_mul_upper_bound(sqrt_slots + 1, 5, sqrt_slots + 1, 5);
            }
        }
        assert((inclusion_delay <= 5) == (inclusion_delay * inclusion_delay <= 32)) by (nonlinear_arith) {
            if inclusion_delay >= 6 {
                assert(inclusion_delay * inclusion_delay >= 36) by (nonlinear_arith)
                    requires
                        inclusion_delay >= 6,
                ;
            } else {
                lemma_mul_upper_bound(inclusion_delay as int, 5, inclusion_delay as int, 5);
            }
        }
        let mut flags: Vec<u8> = Vec::new();
        if inclusion_delay <= sqrt_slots {
            flags.push(TIMELY_SOURCE_FLAG_INDEX);
        }
        if matching_target && inclusion_delay <= SLOTS_PER_EPOCH {
            flags.push(TIMELY_TARGET_FLAG_INDEX);
        }
        if matching_head && inclusion_delay == MIN_ATTESTATION_INCLUSION_DELAY {
            flags.push(TIMELY_HEAD_FLAG_INDEX);
        }
        assert(flags@ =~= earned_flags(true, matching_target, matching_head, inclusion_delay));
        Ok(flags)
    }

    /// Returns the inactivity rewards (all zero) and penalties of every
    /// validator for the previous epoch.
    pub fn get_inactivity_penalty_deltas(&self) -> (r: Result<(Vec<u64>, Vec<u64>), BeaconStateError>)
        requires
            self.wf(),
            forall|k: int|
                0 <= k < self.validators@.len() ==> self.validators@[k].effective_balance
                    * self.inactivity_scores@[k] <= u64::MAX,
        ensures
            r is Ok,
            r->Ok_0.0@.len() == self.validators@.len(),
            r->Ok_0.1@.len() == self.validators@.len(),
            forall|k: int| 0 <= k < self.validators@.len() ==> r->Ok_0.0@[k] == 0,
            forall|k: int| 0 <= k < self.validators@.len() ==> r->Ok_0.1@[k] == inactivity_penalty_of(*self, k),
    {
        let n: usize = self.validators.len();
        let mut rewards: Vec<u64> = Vec::new();
        let mut penalties: Vec<u64> = Vec::new();
        let mut k: usize = 0;
        while k < n
            invariant
                self.wf(),
                n == self.validators@.len(),
                k <= n,
                rewards@.len() == k,
                penalties@.len() == k,
                forall|k: int|
                    0 <= k < self.validators@.len() ==> self.validators@[k].effective_balance
                        * self.inactivity_scores@[k] <= u64::MAX,
                forall|t: int| 0 <= t < k ==> rewards@[t] == 0,
                forall|t: int| 0 <= t < k ==> penalties@[t] == inactivity_penalty_of(*self, t),
            decreases n - k,
        {
            rewards.push(0);
            if self.is_eligible(k) && !self.is_target_participant(k) {
                let eb = self.validators[k].effective_balance;
                let score = self.inactivity_scores[k];
                assert(eb * score <= u64::MAX);
                let numerator = eb * score;
                let denominator = INACTIVITY_SCORE_BIAS * INACTIVITY_PENALTY_QUOTIENT_ALTAIR;
                penalties.push(numerator / denominator);
            } else {
                penalties.push(0);
            }
            k = k + 1;
        }
        Ok((rewards, penalties))
    }
}

} // verus!
