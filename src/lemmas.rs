use vstd::prelude::*;
use crate::beacon_state::{
    active_pred, block_root_at_slot_of, credited, debited, lemma_slashing_rewards_partition,
    proposer_share_of, whistleblower_reward_of, churn_limit_of, exit_epochs_bounded, indices_where, current_epoch_of, lemma_max_exit_epoch_finite, exit_count, exit_queue_epoch_of, exited_validators,
    is_first_acceptance, max_exit_epoch, proposer_accepts, proposer_candidate, proposer_outcome,
    total_balance_of, BeaconState,
};
use crate::constants::{
    EFFECTIVE_BALANCE_INCREMENT, FAR_FUTURE_EPOCH, MAX_SEED_LOOKAHEAD, MIN_PER_EPOCH_CHURN_LIMIT,
    MIN_SLASHING_PENALTY_QUOTIENT, WHISTLEBLOWER_REWARD_QUOTIENT,
    SHUFFLE_ROUND_COUNT, SLOTS_PER_HISTORICAL_ROOT,
};
use crate::misc::{full_shuffled_index, lemma_shuffled_index_in_range};
use crate::types::{BeaconStateError, Root, Validator};

verus! {

/// A root written to the ring slot of `slot` is what a read of `slot` gives
/// while `slot` lies in the retained window; outside the window the read
/// fails with `OutOfHistoryRange`.
pub proof fn lemma_block_root_reads_last_write(before: BeaconState, after: BeaconState, slot: u64, root: Root)
    requires
        before.wf(),
        after.block_roots@ == before.block_roots@.update((slot % SLOTS_PER_HISTORICAL_ROOT) as int, root),
    ensures
        slot < after.slot <= slot + SLOTS_PER_HISTORICAL_ROOT ==> block_root_at_slot_of(after, slot as int)
            == Ok::<Root, BeaconStateError>(root),
        !(slot < after.slot <= slot + SLOTS_PER_HISTORICAL_ROOT) ==> block_root_at_slot_of(
            after,
            slot as int,
        ) == Err::<Root, BeaconStateError>(BeaconStateError::OutOfHistoryRange),
{
}

/// The total balance of no validators is exactly one increment, never zero.
pub proof fn lemma_total_balance_of_none(vs: Seq<Validator>)
    ensures
        total_balance_of(vs, seq![]) == EFFECTIVE_BALANCE_INCREMENT,
{
}

/// The proposer draw is a function of its inputs: any two outcomes allowed
/// for the same registry, indices and seed are the same outcome.
pub proof fn lemma_proposer_index_deterministic(
    vs: Seq<Validator>,
    indices: Seq<u64>,
    seed: Seq<u8>,
    a: Result<u64, BeaconStateError>,
    b: Result<u64, BeaconStateError>,
)
    requires
        proposer_outcome(vs, indices, seed, a),
        proposer_outcome(vs, indices, seed, b),
    ensures
        a == b,
{
    match (a, b) {
        (Ok(x), Ok(y)) => {
            let i = choose|i: nat|
                i < u64::MAX && is_first_acceptance(vs, indices, seed, i) && x == proposer_candidate(indices, seed, i);
            let j = choose|j: nat|
                j < u64::MAX && is_first_acceptance(vs, indices, seed, j) && y == proposer_candidate(indices, seed, j);
            if i < j {
                assert(!proposer_accepts(vs, indices, seed, i));
            } else if j < i {
                assert(!proposer_accepts(vs, indices, seed, j));
            }
        },
        (Ok(x), Err(_)) => {
            let i = choose|i: nat|
                i < u64::MAX && is_first_acceptance(vs, indices, seed, i) && x == proposer_candidate(indices, seed, i);
            assert(proposer_accepts(vs, indices, seed, i));
        },
        (Err(_), Ok(y)) => {
            let j = choose|j: nat|
                j < u64::MAX && is_first_acceptance(vs, indices, seed, j) && y == proposer_candidate(indices, seed, j);
            assert(proposer_accepts(vs, indices, seed, j));
        },
        (Err(_), Err(_)) => {},
    }
}

/// A draw from a single index returns that index, whatever the seed.
pub proof fn lemma_proposer_index_singleton(vs: Seq<Validator>, indices: Seq<u64>, seed: Seq<u8>, a: u64)
    requires
        indices.len() == 1,
        proposer_outcome(vs, indices, seed, Ok(a)),
    ensures
        a == indices[0],
{
    let i = choose|i: nat|
        i < u64::MAX && is_first_acceptance(vs, indices, seed, i) && a == proposer_candidate(indices, seed, i);
    assert(i % 1 == 0);
    lemma_shuffled_index_in_range(0, 1, seed, SHUFFLE_ROUND_COUNT as nat);
    assert(full_shuffled_index(0, 1, seed) == 0);
}

proof fn lemma_max_exit_epoch_bounded(vs: Seq<Validator>, floor: u64)
    requires
        floor < FAR_FUTURE_EPOCH - 1,
        exit_epochs_bounded(vs),
    ensures
        max_exit_epoch(vs, floor) < FAR_FUTURE_EPOCH - 1,
    decreases vs.len(),
{
    if vs.len() > 0 {
        assert(exit_epochs_bounded(vs.drop_last())) by {
            assert forall|k: int|
                0 <= k < vs.drop_last().len() && vs.drop_last()[k].exit_epoch != FAR_FUTURE_EPOCH implies vs.drop_last()[k].exit_epoch
                    < FAR_FUTURE_EPOCH - 1 by {
                assert(vs.drop_last()[k] == vs[k]);
            }
        }
        lemma_max_exit_epoch_bounded(vs.drop_last(), floor);
    }
}

/// The epoch that the exit queue hands out is never `FAR_FUTURE_EPOCH`
/// while the exit epochs set so far are bounded.
pub proof fn lemma_exit_queue_epoch_finite(s: BeaconState)
    requires
        exit_epochs_bounded(s.validators@),
    ensures
        exit_queue_epoch_of(s) < FAR_FUTURE_EPOCH,
        exit_queue_epoch_of(s) > current_epoch_of(s),
{
    let floor = (current_epoch_of(s) + 1 + MAX_SEED_LOOKAHEAD) as u64;
    lemma_max_exit_epoch_bounded(s.validators@, floor);
    lemma_max_exit_epoch_finite(s.validators@, floor);
}

/// Starting an exit twice changes nothing the second time: the first call
/// gives the validator an exit epoch, and the second leaves the registry as
/// it is.
pub proof fn lemma_exit_idempotent(first: BeaconState, second: BeaconState, index: u64)
    requires
        exit_epochs_bounded(first.validators@),
        second.validators@ == exited_validators(first, index),
    ensures
        exited_validators(second, index) == second.validators@,
{
    lemma_exit_queue_epoch_finite(first);
}

proof fn lemma_exit_count_update(vs: Seq<Validator>, i: int, v: Validator, epoch: u64)
    requires
        0 <= i < vs.len(),
    ensures
        exit_count(vs.update(i, v), epoch) + (if vs[i].exit_epoch == epoch { 1int } else { 0int })
            == exit_count(vs, epoch) + (if v.exit_epoch == epoch { 1int } else { 0int }),
    decreases vs.len(),
{
    let u = vs.update(i, v);
    if i == vs.len() - 1 {
        assert(u.drop_last() =~= vs.drop_last());
    } else {
        lemma_exit_count_update(vs.drop_last(), i, v, epoch);
        assert(u.drop_last() =~= vs.drop_last().update(i, v));
    }
}

proof fn lemma_exit_count_none(vs: Seq<Validator>, epoch: u64)
    requires
        forall|k: int| 0 <= k < vs.len() ==> vs[k].exit_epoch != epoch,
    ensures
        exit_count(vs, epoch) == 0,
    decreases vs.len(),
{
    if vs.len() > 0 {
        lemma_exit_count_none(vs.drop_last(), epoch);
    }
}

/// The exit queue respects the churn limit: after a validator joins it, the
/// epoch it was given holds no more exits than the churn limit allows.
pub proof fn lemma_exit_respects_churn(before: BeaconState, after: BeaconState, index: u64)
    requires
        index < before.validators@.len(),
        before.validators@[index as int].exit_epoch == FAR_FUTURE_EPOCH,
        after.validators@ == exited_validators(before, index),
        exit_epochs_bounded(before.validators@),
    ensures
        exit_count(after.validators@, exit_queue_epoch_of(before)) <= churn_limit_of(before),
{
    lemma_exit_queue_epoch_finite(before);
    let vs = before.validators@;
    let floor = (current_epoch_of(before) + 1 + MAX_SEED_LOOKAHEAD) as u64;
    let base = max_exit_epoch(vs, floor);
    let q = exit_queue_epoch_of(before);
    let v = after.validators@[index as int];
    assert(after.validators@ == vs.update(index as int, v));
    lemma_max_exit_epoch_finite(vs, floor);
    lemma_exit_count_update(vs, index as int, v, q);
    assert(churn_limit_of(before) >= MIN_PER_EPOCH_CHURN_LIMIT);
    if q != base {
        assert forall|k: int| 0 <= k < vs.len() implies vs[k].exit_epoch != q by {}
        lemma_exit_count_none(vs, q);
    }
}

proof fn lemma_indices_where_ext(n: nat, p: spec_fn(int) -> bool, q: spec_fn(int) -> bool)
    requires
        forall|i: int| 0 <= i < n ==> #[trigger] p(i) == q(i),
    ensures
        indices_where(n, p) == indices_where(n, q),
    decreases n,
{
    if n > 0 {
        lemma_indices_where_ext((n - 1) as nat, p, q);
    }
}

/// An exit keeps the churn limit of the epoch and keeps every exit epoch
/// within it: if no finite exit epoch held more exits than the limit
/// before, none does after, so a run of exits within one epoch never
/// overfills an exit epoch.
pub proof fn lemma_exit_keeps_churn_bounds(before: BeaconState, after: BeaconState, index: u64)
    requires
        exit_epochs_bounded(before.validators@),
        after.validators@ == exited_validators(before, index),
        after.slot == before.slot,
        forall|e: u64| e != FAR_FUTURE_EPOCH ==> exit_count(before.validators@, e) <= churn_limit_of(before),
    ensures
        churn_limit_of(after) == churn_limit_of(before),
        forall|e: u64| e != FAR_FUTURE_EPOCH ==> exit_count(after.validators@, e) <= churn_limit_of(after),
{
    let vs = before.validators@;
    if index < vs.len() && vs[index as int].exit_epoch == FAR_FUTURE_EPOCH {
        let q = exit_queue_epoch_of(before);
        lemma_exit_queue_epoch_finite(before);
        let v = after.validators@[index as int];
        assert(after.validators@ == vs.update(index as int, v));
        let epoch = current_epoch_of(before);
        lemma_indices_where_ext(vs.len(), active_pred(vs, epoch), active_pred(after.validators@, epoch));
        assert(churn_limit_of(after) == churn_limit_of(before));
        lemma_exit_respects_churn(before, after, index);
        assert forall|e: u64| e != FAR_FUTURE_EPOCH implies exit_count(after.validators@, e) <= churn_limit_of(after) by {
            lemma_exit_count_update(vs, index as int, v, e);
        }
    }
}

/// After a slashing, what the proposer and the whistleblower gain adds up
/// to the whole whistleblower reward, whether they are two validators or the
/// proposer takes both shares; the slashed validator only loses its penalty.
pub proof fn lemma_slashing_credits_sum(balances: Seq<u64>, slashed: u64, proposer: u64, whistleblower: u64, b: u64)
    requires
        slashed < balances.len(),
        proposer < balances.len(),
        whistleblower < balances.len(),
        proposer != slashed,
        whistleblower != slashed,
        balances[proposer as int] + whistleblower_reward_of(b) <= u64::MAX,
        balances[whistleblower as int] + whistleblower_reward_of(b) <= u64::MAX,
    ensures
        ({
            let after = credited(
                credited(debited(balances, slashed, b / MIN_SLASHING_PENALTY_QUOTIENT), proposer, proposer_share_of(b)),
                whistleblower,
                (whistleblower_reward_of(b) - proposer_share_of(b)) as u64,
            );
            &&& proposer != whistleblower ==> (after[proposer as int] - balances[proposer as int])
                + (after[whistleblower as int] - balances[whistleblower as int]) == b / WHISTLEBLOWER_REWARD_QUOTIENT
            &&& proposer == whistleblower ==> after[proposer as int] - balances[proposer as int] == b
                / WHISTLEBLOWER_REWARD_QUOTIENT
        }),
{
    lemma_slashing_rewards_partition(b);
}

} // verus!
