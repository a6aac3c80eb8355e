use itertools::Itertools;
use vstd::prelude::*;
use crate::bytes::{append_bytes, append_le_u64, le_bytes, le_u64, read_le_u64};
use crate::constants::{MAX_SEED_LOOKAHEAD, SHUFFLE_ROUND_COUNT, SLOTS_PER_EPOCH};
use crate::hashing::{sha256, sha256_of};
use crate::types::Root;

verus! {

/// The epoch that `slot` falls in.
pub open spec fn epoch_at_slot(slot: u64) -> u64 {
    (slot / SLOTS_PER_EPOCH) as u64
}

/// Returns the epoch that `slot` falls in.
pub fn compute_epoch_at_slot(slot: u64) -> (r: u64)
    ensures
        r == epoch_at_slot(slot),
{
    slot / SLOTS_PER_EPOCH
}

/// Returns the first epoch at which a validator activated or exited now takes effect.
pub fn compute_activation_exit_epoch(epoch: u64) -> (r: u64)
    requires
        epoch + 1 + MAX_SEED_LOOKAHEAD <= u64::MAX,
    ensures
        r == epoch + 1 + MAX_SEED_LOOKAHEAD,
{
    epoch + 1 + MAX_SEED_LOOKAHEAD
}

/// Whether `r` is the integer square root of `n`, rounded down.
pub open spec fn is_floor_sqrt(n: nat, r: nat) -> bool {
    r * r <= n < (r + 1) * (r + 1)
}

/// Returns the largest integer whose square does not exceed `n`.
pub fn integer_squareroot(n: u64) -> (r: u64)
    ensures
        is_floor_sqrt(n as nat, r as nat),
{
    let mut lo: u64 = 0;
    let mut hi: u64 = 0x1_0000_0000;
    assert(hi * hi > u64::MAX) by (nonlinear_arith)
        requires
            hi == 0x1_0000_0000u64,
    ;
    while hi - lo > 1
        invariant
            lo < hi <= 0x1_0000_0000,
            lo * lo <= n,
            n < hi * hi,
        decreases hi - lo,
    {
        let mid: u64 = lo + (hi - lo) / 2;
        assert(mid * mid <= 0x1_0000_0000u64 * 0x1_0000_0000u64) by (nonlinear_arith)
            requires
                mid < 0x1_0000_0000u64,
        ;
        let sq: u128 = (mid as u128) * (mid as u128);
        if sq <= n as u128 {
            lo = mid;
        } else {
            hi = mid;
        }
    }
    assert(hi == lo + 1);
    lo
}

/// The four little-endian bytes of `x`.
pub open spec fn le_bytes32(x: u32) -> Seq<u8> {
    seq![
        (x & 0xff) as u8,
        ((x >> 8u32) & 0xff) as u8,
        ((x >> 16u32) & 0xff) as u8,
        ((x >> 24u32) & 0xff) as u8,
    ]
}

/// The pivot of one round of the swap-or-not shuffle.
pub open spec fn shuffle_pivot(seed: Seq<u8>, round: u64, count: u64) -> u64
    recommends
        count > 0,
{
    (le_u64(sha256_of(seed.push(round as u8))) % count) as u64
}

/// Where one round of the swap-or-not shuffle sends position `index`.
pub open spec fn shuffle_round(index: u64, count: u64, seed: Seq<u8>, round: u64) -> u64
    recommends
        index < count,
{
    let pivot = shuffle_pivot(seed, round, count);
    let flip: u64 = if pivot >= index {
        (pivot - index) as u64
    } else {
        (pivot + count - index) as u64
    };
    let position: u64 = if index > flip {
        index
    } else {
        flip
    };
    let source = sha256_of(seed.push(round as u8) + le_bytes32((position / 256) as u32));
    let byte: u8 = source[((position % 256) / 8) as int];
    if (byte >> ((position % 8) as u8)) % 2 == 1 {
        flip
    } else {
        index
    }
}

/// The position that `rounds` rounds of the shuffle under `seed` send `index` to.
pub open spec fn shuffled_index(index: u64, count: u64, seed: Seq<u8>, rounds: nat) -> u64
    decreases rounds,
{
    if rounds == 0 {
        index
    } else {
        shuffle_round(shuffled_index(index, count, seed, (rounds - 1) as nat), count, seed, (rounds - 1) as u64)
    }
}

proof fn lemma_shuffle_round_in_range(index: u64, count: u64, seed: Seq<u8>, round: u64)
    requires
        index < count,
    ensures
        shuffle_round(index, count, seed, round) < count,
{
    let pivot = shuffle_pivot(seed, round, count);
    assert(pivot < count) by (nonlinear_arith)
        requires
            pivot == (le_u64(sha256_of(seed.push(round as u8))) % count) as u64,
            count > 0,
    ;
}

/// The position of `index` among `count` items after the full swap-or-not shuffle.
pub open spec fn full_shuffled_index(index: u64, count: u64, seed: Seq<u8>) -> u64 {
    shuffled_index(index, count, seed, SHUFFLE_ROUND_COUNT as nat)
}

/// Returns the position that the swap-or-not shuffle of `count` items under
/// `seed` gives to `index`.
pub fn compute_shuffled_index(index: u64, count: u64, seed: &Root) -> (r: u64)
    requires
        index < count,
    ensures
        r == full_shuffled_index(index, count, seed@),
        r < count,
{
    let mut cur: u64 = index;
    let mut round: u64 = 0;
    while round < SHUFFLE_ROUND_COUNT
        invariant
            round <= SHUFFLE_ROUND_COUNT,
            index < count,
            cur < count,
            cur == shuffled_index(index, count, seed@, round as nat),
        decreases SHUFFLE_ROUND_COUNT - round,
    {
        let mut pivot_input: Vec<u8> = Vec::new();
        append_bytes(&mut pivot_input, seed);
        pivot_input.push(round as u8);
        assert(pivot_input@ =~= seed@.push(round as u8));
        let pivot_hash = sha256(pivot_input.as_slice());
        let pivot = read_le_u64(&pivot_hash) % count;
        let flip: u64 = if pivot >= cur {
            pivot - cur
        } else {
            pivot + (count - cur)
        };
        let position: u64 = if cur > flip {
            cur
        } else {
            flip
        };
        let block: u32 = (position / 256) as u32;
        let mut source_input: Vec<u8> = pivot_input;
        source_input.push((block & 0xff) as u8);
        source_input.push(((block >> 8u32) & 0xff) as u8);
        source_input.push(((block >> 16u32) & 0xff) as u8);
        source_input.push(((block >> 24u32) & 0xff) as u8);
        assert(source_input@ =~= seed@.push(round as u8) + le_bytes32(block));
        let source = sha256(source_input.as_slice());
        let byte: u8 = source[((position % 256) / 8) as usize];
        proof {
            lemma_shuffle_round_in_range(cur, count, seed@, round);
        }
        if (byte >> ((position % 8) as u8)) % 2 == 1 {
            cur = flip;
        }
        round = round + 1;
    }
    cur
}

/// The members of committee `index` out of `count` committees drawn from `indices`.
pub open spec fn committee_members(indices: Seq<u64>, seed: Seq<u8>, index: u64, count: u64) -> Seq<u64> {
    let len = indices.len() as int;
    let start = len * (index as int) / (count as int);
    let end = len * (index as int + 1) / (count as int);
    Seq::new(
        (end - start) as nat,
        |k: int| indices[full_shuffled_index((start + k) as u64, len as u64, seed) as int],
    )
}

/// Returns committee `index` out of `count` committees that partition
/// `indices` after the shuffle under `seed`.
pub fn compute_committee(indices: &Vec<u64>, seed: &Root, index: u64, count: u64) -> (r: Vec<u64>)
    requires
        index < count,
    ensures
        r@ == committee_members(indices@, seed@, index, count),
{
    let n_us: usize = indices.len();
    let len: u64 = n_us as u64;
    let ghost n = indices@.len();
    assert((len as u128) * ((index as u128) + 1) <= 0xffff_ffff_ffff_ffffu128 * 0x1_0000_0000_0000_0000u128)
        by (nonlinear_arith)
        requires
            len <= 0xffff_ffff_ffff_ffffu64,
            index < 0xffff_ffff_ffff_ffffu64,
    ;
    assert((len as u128) * (index as u128) <= (len as u128) * ((index as u128) + 1)) by (nonlinear_arith);
    let start128: u128 = (len as u128) * (index as u128) / (count as u128);
    let end128: u128 = (len as u128) * ((index as u128) + 1) / (count as u128);
    assert(start128 <= end128 <= len) by (nonlinear_arith)
        requires
            start128 == (len as int) * (index as int) / (count as int),
            end128 == (len as int) * (index as int + 1) / (count as int),
            index < count,
    {
        assert((len as int) * (index as int) <= (len as int) * (index as int + 1));
        assert((len as int) * (index as int + 1) <= (len as int) * (count as int));
        assert((len as int) * (count as int) / (count as int) == len as int);
    }
    let start: u64 = start128 as u64;
    let end: u64 = end128 as u64;
    let mut r: Vec<u64> = Vec::new();
    let mut i: u64 = start;
    while i < end
        invariant
            start <= i <= end <= len,
            len == indices@.len(),
            n == indices@.len(),
            n_us == n,
            start == (n as int) * (index as int) / (count as int),
            end == (n as int) * (index as int + 1) / (count as int),
            r@ =~= Seq::new(
                (i - start) as nat,
                |k: int| indices@[full_shuffled_index((start + k) as u64, len, seed@) as int],
            ),
        decreases end - i,
    {
        let p = compute_shuffled_index(i, len, seed);
        let ghost prev = r@;
        let ghost old_i = i;
        assert(prev.len() == old_i - start);
        assert(p < n_us);
        let pu: usize = p as usize;
        r.push(indices[pu]);
        assert(r@ == prev.push(indices@[p as int]));
        i = i + 1;
        assert forall|k: int| 0 <= k < (i - start) as int implies r@[k] == indices@[full_shuffled_index(
            (start + k) as u64,
            len,
            seed@,
        ) as int] by {
            if k < (i - start) as int - 1 {
                assert(r@[k] == prev[k]);
            } else {
                assert((start + k) as u64 == old_i);
                assert(r@[k] == indices@[p as int]);
            }
        }
        assert(r@ =~= Seq::new(
            (i - start) as nat,
            |k: int| indices@[full_shuffled_index((start + k) as u64, len, seed@) as int],
        ));
    }
    assert(r@ =~= committee_members(indices@, seed@, index, count));
    r
}

/// The fork-data root: the hash of the version padded to 32 bytes, then the
/// genesis validators root.
pub open spec fn fork_data_root(version: Seq<u8>, genesis_validators_root: Seq<u8>) -> Seq<u8> {
    sha256_of(version + Seq::new(28, |i: int| 0u8) + genesis_validators_root)
}

/// The signature domain: the domain type followed by the first 28 bytes of
/// the fork-data root.
pub open spec fn domain_of(domain_type: Seq<u8>, version: Seq<u8>, genesis_validators_root: Seq<u8>) -> Seq<u8> {
    domain_type + fork_data_root(version, genesis_validators_root).subrange(0, 28)
}

/// Returns the signature domain for `domain_type` under `fork_version` and
/// `genesis_validators_root`.
pub fn compute_domain(domain_type: &[u8; 4], fork_version: &[u8; 4], genesis_validators_root: &Root) -> (r: Root)
    ensures
        r@ == domain_of(domain_type@, fork_version@, genesis_validators_root@),
{
    let mut input: Vec<u8> = Vec::new();
    append_bytes(&mut input, fork_version);
    let mut k: usize = 0;
    while k < 28
        invariant
            k <= 28,
            input@ == fork_version@ + Seq::new(k as nat, |i: int| 0u8),
        decreases 28 - k,
    {
        input.push(0u8);
        k = k + 1;
        assert(input@ =~= fork_version@ + Seq::new(k as nat, |i: int| 0u8));
    }
    append_bytes(&mut input, genesis_validators_root);
    let root = sha256(input.as_slice());
    let mut out: Root = root;
    let mut j: usize = 0;
    while j < 28
        invariant
            j <= 28,
            out@.len() == 32,
            root@.len() == 32,
            forall|t: int| 0 <= t < j ==> out@[t + 4] == root@[t],
        decreases 28 - j,
    {
        out[j + 4] = root[j];
        j = j + 1;
    }
    out[0] = domain_type[0];
    out[1] = domain_type[1];
    out[2] = domain_type[2];
    out[3] = domain_type[3];
    assert(out@ =~= domain_type@ + root@.subrange(0, 28));
    out
}

/// `s` with every value after its first occurrence removed, order kept.
pub open spec fn dedup_first(s: Seq<u64>) -> Seq<u64>
    decreases s.len(),
{
    if s.len() == 0 {
        seq![]
    } else {
        let rest = dedup_first(s.drop_last());
        if s.drop_last().contains(s.last()) {
            rest
        } else {
            rest.push(s.last())
        }
    }
}

/// Whether `s` is in ascending order.
pub open spec fn is_sorted(s: Seq<u64>) -> bool {
    forall|i: int, j: int| 0 <= i < j < s.len() ==> s[i] <= s[j]
}

/// Relies on `itertools::Itertools::unique`: yields each value at its first
/// occurrence, in the order of the input, and drops later repeats.
#[verifier::external_body]
pub(crate) fn unique_in_order(v: Vec<u64>) -> (r: Vec<u64>)
    ensures
        r@ == dedup_first(v@),
{
    v.into_iter().unique().collect()
}

/// Relies on `slice::sort`: the same values, in ascending order.
#[verifier::external_body]
pub(crate) fn sort_ascending(v: &mut Vec<u64>)
    ensures
        final(v)@.to_multiset() == old(v)@.to_multiset(),
        is_sorted(final(v)@),
{
    v.sort()
}

/// Every number of shuffle rounds keeps a position among the `count` items.
pub proof fn lemma_shuffled_index_in_range(index: u64, count: u64, seed: Seq<u8>, rounds: nat)
    requires
        index < count,
    ensures
        shuffled_index(index, count, seed, rounds) < count,
    decreases rounds,
{
    if rounds > 0 {
        lemma_shuffled_index_in_range(index, count, seed, (rounds - 1) as nat);
        lemma_shuffle_round_in_range(
            shuffled_index(index, count, seed, (rounds - 1) as nat),
            count,
            seed,
            (rounds - 1) as u64,
        );
    }
}

} // verus!
