use vstd::prelude::*;

verus! {

/// A 32-byte digest: a block root, a state root, a seed or a RANDAO mix.
pub type Root = [u8; 32];

/// One entry of the validator registry.
#[derive(Clone, Copy, Debug, PartialEq, Eq)]
pub struct Validator {
    pub effective_balance: u64,
    pub slashed: bool,
    pub activation_eligibility_epoch: u64,
    pub activation_epoch: u64,
    pub exit_epoch: u64,
    pub withdrawable_epoch: u64,
}

/// An epoch together with the block root at its start.
#[derive(Clone, Copy, Debug, PartialEq, Eq)]
pub struct Checkpoint {
    pub epoch: u64,
    pub root: Root,
}

/// The fork versions in force before and from `epoch`.
#[derive(Clone, Copy, Debug, PartialEq, Eq)]
pub struct Fork {
    pub previous_version: [u8; 4],
    pub current_version: [u8; 4],
    pub epoch: u64,
}

/// What an attestation votes for.
#[derive(Clone, Copy, Debug, PartialEq, Eq)]
pub struct AttestationData {
    pub slot: u64,
    pub index: u64,
    pub beacon_block_root: Root,
    pub source: Checkpoint,
    pub target: Checkpoint,
}

/// An aggregate attestation: one bit per member of the committee.
#[derive(Clone, Debug, PartialEq, Eq)]
pub struct Attestation {
    pub aggregation_bits: Vec<bool>,
    pub data: AttestationData,
    pub signature: Vec<u8>,
}

/// An attestation in canonical form: the attesting validators in ascending order.
#[derive(Clone, Debug, PartialEq, Eq)]
pub struct IndexedAttestation {
    pub attesting_indices: Vec<u64>,
    pub data: AttestationData,
    pub signature: Vec<u8>,
}

/// The ways in which a query or a transition on the state can fail.
#[derive(Clone, Copy, Debug, PartialEq, Eq)]
pub enum BeaconStateError {
    /// The slot lies outside the window that the block-root ring retains.
    OutOfHistoryRange,
    /// A selection was asked to choose from no candidates.
    EmptyIndexSet,
    /// A participation query named neither the current nor the previous epoch.
    InvalidEpoch,
    /// No validator stands at the given index.
    ValidatorNotFound,
    /// The attestation's source checkpoint is not the justified checkpoint.
    SourceMismatch,
    /// The committee index is not below the number of committees of the epoch.
    CommitteeIndexOutOfRange,
    /// The proposer draw met no accepted candidate in the whole range of its counter.
    SamplingExhausted,
}

/// The header of the latest block.
#[derive(Clone, Copy, Debug, PartialEq, Eq)]
pub struct BeaconBlockHeader {
    pub slot: u64,
    pub proposer_index: u64,
    pub parent_root: Root,
    pub state_root: Root,
    pub body_root: Root,
}

/// A vote on the state of the deposit contract.
#[derive(Clone, Copy, Debug, PartialEq, Eq)]
pub struct Eth1Data {
    pub deposit_root: Root,
    pub deposit_count: u64,
    pub block_hash: Root,
}

/// A sync committee: its members' public keys and their aggregate, each a
/// 48-byte compressed key.
#[derive(Clone, Debug, PartialEq, Eq)]
pub struct SyncCommittee {
    pub pubkeys: Vec<Vec<u8>>,
    pub aggregate_pubkey: Vec<u8>,
}

/// The header of the latest execution payload, held as it came.
#[derive(Clone, Debug, PartialEq, Eq)]
pub struct ExecutionPayloadHeader {
    pub parent_hash: Root,
    pub fee_recipient: Vec<u8>,
    pub state_root: Root,
    pub receipts_root: Root,
    pub logs_bloom: Vec<u8>,
    pub prev_randao: Root,
    pub block_number: u64,
    pub gas_limit: u64,
    pub gas_used: u64,
    pub timestamp: u64,
    pub extra_data: Vec<u8>,
    /// Little-endian 256-bit integer.
    pub base_fee_per_gas: Root,
    pub block_hash: Root,
    pub transactions_root: Root,
    pub withdrawals_root: Root,
    pub blob_gas_used: u64,
    pub excess_blob_gas: u64,
}

/// The roots that summarise one era of block and state roots.
#[derive(Clone, Copy, Debug, PartialEq, Eq)]
pub struct HistoricalSummary {
    pub block_summary_root: Root,
    pub state_summary_root: Root,
}

} // verus!
