use vstd::prelude::*;

use crate::chain::{
    BlockModel, CheckpointBeacon, DataRequestOutput, Epoch, Input, Output, OutputPointer,
    TransactionModel, TransactionType,
};
use crate::validations::BlockValidationError;
use crate::merkle::{merkle_level, merkle_root, sha256_digest};
use crate::data_request::{block_data_requests, data_request_entries, DataRequestEntry};
use crate::validations::{
    add_outputs, apply_transactions, block_error, merkle_tree_is_valid, spec_transaction_tag, has_transaction_id, pool_without_block, remove_all, spec_block_reward, spec_commit_reward,
    spec_dr_vt_reward, spec_reveal_reward, spec_tally_change, spend_inputs,
    utxo_after_transactions, LedgerState, HALVING_PERIOD, SATOWITS_PER_WIT,
};

verus! {

/// The pointer to the output at index `i` of the transaction `id`.
pub open spec fn pointer_to(id: crate::chain::Hash, i: int) -> OutputPointer {
    OutputPointer { transaction_id: id, output_index: i as u32 }
}

/// Whether some input of `txns` spends `p`.
pub open spec fn spent_in(txns: Seq<TransactionModel>, p: OutputPointer) -> bool {
    exists|k: int, j: int|
        0 <= k < txns.len() && 0 <= j < txns[k].inputs.len() && (
        #[trigger] txns[k].inputs[j]).spec_output_pointer() == p
}

/// Whether some data request input of `txns` spends `p`.
pub open spec fn data_request_spent_in(txns: Seq<TransactionModel>, p: OutputPointer) -> bool {
    exists|k: int, j: int|
        0 <= k < txns.len() && 0 <= j < txns[k].inputs.len() && (
        #[trigger] txns[k].inputs[j]) is DataRequest
            && txns[k].inputs[j].spec_output_pointer() == p
}

/// Whether some output of `txns` is added at `p`.
pub open spec fn created_in(txns: Seq<TransactionModel>, p: OutputPointer) -> bool {
    exists|k: int, i: int|
        0 <= k < txns.len() && 0 <= i < txns[k].outputs.len() && p == #[trigger] pointer_to(txns[k].hash, i)
}

/// Whether two maps agree at `p`: both hold it with the same value, or
/// neither holds it.
pub open spec fn agree_at(
    a: Map<OutputPointer, Output>,
    b: Map<OutputPointer, Output>,
    p: OutputPointer,
) -> bool {
    &&& a.dom().contains(p) == b.dom().contains(p)
    &&& a.dom().contains(p) ==> a[p] == b[p]
}

proof fn lemma_spend_inputs_untouched(state: LedgerState, inputs: Seq<Input>, p: OutputPointer)
    requires
        forall|j: int| 0 <= j < inputs.len() ==> (#[trigger] inputs[j]).spec_output_pointer() != p,
    ensures
        agree_at(spend_inputs(state, inputs).0, state.0, p),
    decreases inputs.len(),
{
    if inputs.len() > 0 {
        let prefix = inputs.drop_last();
        assert forall|j: int| 0 <= j < prefix.len() implies (
        #[trigger] prefix[j]).spec_output_pointer() != p by {
            assert(prefix[j] == inputs[j]);
        }
        lemma_spend_inputs_untouched(state, prefix, p);
        assert(inputs.last() == inputs[inputs.len() - 1]);
    }
}

proof fn lemma_spend_inputs_deferred(state: LedgerState, inputs: Seq<Input>, p: OutputPointer)
    ensures
        spend_inputs(state, inputs).1.contains(p) <==> (state.1.contains(p) || exists|j: int|
            0 <= j < inputs.len() && (#[trigger] inputs[j]) is DataRequest
                && inputs[j].spec_output_pointer() == p),
    decreases inputs.len(),
{
    if inputs.len() > 0 {
        let prefix = inputs.drop_last();
        lemma_spend_inputs_deferred(state, prefix, p);
        let last = inputs.last();
        let before = spend_inputs(state, prefix);
        if exists|j: int|
            0 <= j < inputs.len() && (#[trigger] inputs[j]) is DataRequest
                && inputs[j].spec_output_pointer() == p {
            let j = choose|j: int|
                0 <= j < inputs.len() && (#[trigger] inputs[j]) is DataRequest
                    && inputs[j].spec_output_pointer() == p;
            if j < inputs.len() - 1 {
                assert(prefix[j] == inputs[j]);
            } else {
                assert(before.1.push(p)[before.1.len() as int] == p);
            }
        }
        if spend_inputs(state, inputs).1.contains(p) {
            if !before.1.contains(p) {
                assert(last is DataRequest);
                assert(inputs[inputs.len() - 1] == last);
            }
        }
        if state.1.contains(p) || exists|j: int|
            0 <= j < prefix.len() && (#[trigger] prefix[j]) is DataRequest
                && prefix[j].spec_output_pointer() == p {
            let i = choose|i: int| 0 <= i < before.1.len() && before.1[i] == p;
            if last is DataRequest {
                assert(before.1.push(last.spec_output_pointer())[i] == p);
            }
            if exists|j: int|
                0 <= j < prefix.len() && (#[trigger] prefix[j]) is DataRequest
                    && prefix[j].spec_output_pointer() == p {
                let j = choose|j: int|
                    0 <= j < prefix.len() && (#[trigger] prefix[j]) is DataRequest
                        && prefix[j].spec_output_pointer() == p;
                assert(inputs[j] == prefix[j]);
            }
        }
    }
}

proof fn lemma_add_outputs_untouched(
    utxo: Map<OutputPointer, Output>,
    id: crate::chain::Hash,
    outputs: Seq<Output>,
    p: OutputPointer,
)
    requires
        forall|i: int| 0 <= i < outputs.len() ==> #[trigger] pointer_to(id, i) != p,
    ensures
        agree_at(add_outputs(utxo, id, outputs), utxo, p),
    decreases outputs.len(),
{
    if outputs.len() > 0 {
        lemma_add_outputs_untouched(utxo, id, outputs.drop_last(), p);
        assert(pointer_to(id, outputs.len() - 1) != p);
    }
}

proof fn lemma_add_outputs_fresh(
    utxo: Map<OutputPointer, Output>,
    id: crate::chain::Hash,
    outputs: Seq<Output>,
    i: int,
)
    requires
        0 <= i < outputs.len(),
        outputs.len() <= 0x1_0000_0000,
    ensures
        add_outputs(utxo, id, outputs).dom().contains(
            pointer_to(id, i),
        ),
        add_outputs(utxo, id, outputs)[pointer_to(id, i)]
            == outputs[i],
    decreases outputs.len(),
{
    let p = pointer_to(id, i);
    if i < outputs.len() - 1 {
        lemma_add_outputs_fresh(utxo, id, outputs.drop_last(), i);
        assert(((outputs.len() - 1) as int) as u32 != i as u32);
    }
}

proof fn lemma_remove_all(
    utxo: Map<OutputPointer, Output>,
    ptrs: Seq<OutputPointer>,
    p: OutputPointer,
)
    ensures
        remove_all(utxo, ptrs).dom().contains(p) == (utxo.dom().contains(p) && !ptrs.contains(p)),
        remove_all(utxo, ptrs).dom().contains(p) ==> remove_all(utxo, ptrs)[p] == utxo[p],
    decreases ptrs.len(),
{
    if ptrs.len() > 0 {
        let prefix = ptrs.drop_last();
        lemma_remove_all(utxo, prefix, p);
        if prefix.contains(p) {
            let i = choose|i: int| 0 <= i < prefix.len() && prefix[i] == p;
            assert(ptrs[i] == p);
        }
        if ptrs.contains(p) && ptrs.last() != p {
            let i = choose|i: int| 0 <= i < ptrs.len() && ptrs[i] == p;
            assert(prefix[i] == p);
        }
    }
}

proof fn lemma_apply_deferred(state: LedgerState, txns: Seq<TransactionModel>, p: OutputPointer)
    ensures
        apply_transactions(state, txns).1.contains(p) <==> (state.1.contains(p)
            || data_request_spent_in(txns, p)),
    decreases txns.len(),
{
    if txns.len() > 0 {
        let prefix = txns.drop_last();
        lemma_apply_deferred(state, prefix, p);
        let tx = txns.last();
        let before = apply_transactions(state, prefix);
        lemma_spend_inputs_deferred(before, tx.inputs, p);
        if data_request_spent_in(txns, p) {
            let (k, j) = choose|k: int, j: int|
                0 <= k < txns.len() && 0 <= j < txns[k].inputs.len() && (
                #[trigger] txns[k].inputs[j]) is DataRequest
                    && txns[k].inputs[j].spec_output_pointer() == p;
            if k < txns.len() - 1 {
                assert(prefix[k] == txns[k]);
                assert(prefix[k].inputs[j] == txns[k].inputs[j]);
            } else {
                assert(tx.inputs[j] == txns[k].inputs[j]);
            }
        }
        if data_request_spent_in(prefix, p) {
            let (k, j) = choose|k: int, j: int|
                0 <= k < prefix.len() && 0 <= j < prefix[k].inputs.len() && (
                #[trigger] prefix[k].inputs[j]) is DataRequest
                    && prefix[k].inputs[j].spec_output_pointer() == p;
            assert(txns[k] == prefix[k]);
            assert(txns[k].inputs[j] == prefix[k].inputs[j]);
        }
        if exists|j: int|
            0 <= j < tx.inputs.len() && (#[trigger] tx.inputs[j]) is DataRequest
                && tx.inputs[j].spec_output_pointer() == p {
            let j = choose|j: int|
                0 <= j < tx.inputs.len() && (#[trigger] tx.inputs[j]) is DataRequest
                    && tx.inputs[j].spec_output_pointer() == p;
            assert(txns[txns.len() - 1].inputs[j] == tx.inputs[j]);
        }
    }
}

proof fn lemma_apply_untouched(state: LedgerState, txns: Seq<TransactionModel>, p: OutputPointer)
    requires
        !spent_in(txns, p),
        !created_in(txns, p),
    ensures
        agree_at(apply_transactions(state, txns).0, state.0, p),
    decreases txns.len(),
{
    if txns.len() > 0 {
        let prefix = txns.drop_last();
        let last = txns.len() - 1;
        assert(!spent_in(prefix, p)) by {
            if spent_in(prefix, p) {
                let (k, j) = choose|k: int, j: int|
                    0 <= k < prefix.len() && 0 <= j < prefix[k].inputs.len() && (
                    #[trigger] prefix[k].inputs[j]).spec_output_pointer() == p;
                assert(txns[k].inputs[j] == prefix[k].inputs[j]);
            }
        }
        assert(!created_in(prefix, p)) by {
            if created_in(prefix, p) {
                let (k, i) = choose|k: int, i: int|
                    0 <= k < prefix.len() && 0 <= i < prefix[k].outputs.len() && p
                        == #[trigger] pointer_to(prefix[k].hash, i);
                assert(txns[k] == prefix[k]);
            }
        }
        lemma_apply_untouched(state, prefix, p);
        let tx = txns.last();
        let before = apply_transactions(state, prefix);
        assert forall|j: int| 0 <= j < tx.inputs.len() implies (
        #[trigger] tx.inputs[j]).spec_output_pointer() != p by {
            assert(txns[last].inputs[j] == tx.inputs[j]);
        }
        lemma_spend_inputs_untouched(before, tx.inputs, p);
        let spent = spend_inputs(before, tx.inputs);
        assert forall|i: int| 0 <= i < tx.outputs.len() implies #[trigger] pointer_to(tx.hash, i)
            != p by {
            assert(txns[last] == tx);
        }
        lemma_add_outputs_untouched(spent.0, tx.hash, tx.outputs, p);
    }
}

proof fn lemma_apply_fresh(state: LedgerState, txns: Seq<TransactionModel>, k: int, i: int)
    requires
        0 <= k < txns.len(),
        0 <= i < txns[k].outputs.len(),
        txns[k].outputs.len() <= 0x1_0000_0000,
        forall|k2: int| k < k2 < txns.len() ==> (#[trigger] txns[k2]).hash != txns[k].hash,
        forall|k2: int, j: int|
            k < k2 < txns.len() && 0 <= j < txns[k2].inputs.len() ==> (
            #[trigger] txns[k2].inputs[j]).spec_output_pointer() != pointer_to(txns[k].hash, i),
    ensures
        ({
            let p = pointer_to(txns[k].hash, i);
            &&& apply_transactions(state, txns).0.dom().contains(p)
            &&& apply_transactions(state, txns).0[p] == txns[k].outputs[i]
        }),
    decreases txns.len(),
{
    let p = pointer_to(txns[k].hash, i);
    let prefix = txns.drop_last();
    let tx = txns.last();
    let before = apply_transactions(state, prefix);
    let spent = spend_inputs(before, tx.inputs);
    if k == txns.len() - 1 {
        lemma_add_outputs_fresh(spent.0, tx.hash, tx.outputs, i);
    } else {
        assert(prefix[k] == txns[k]);
        assert forall|k2: int| k < k2 < prefix.len() implies (#[trigger] prefix[k2]).hash
            != prefix[k].hash by {
            assert(prefix[k2] == txns[k2]);
        }
        assert forall|k2: int, j: int|
            k < k2 < prefix.len() && 0 <= j < prefix[k2].inputs.len() implies (
            #[trigger] prefix[k2].inputs[j]).spec_output_pointer() != p by {
            assert(prefix[k2] == txns[k2]);
            assert(txns[k2].inputs[j] == prefix[k2].inputs[j]);
        }
        lemma_apply_fresh(state, prefix, k, i);
        let last = txns.len() - 1;
        assert forall|j: int| 0 <= j < tx.inputs.len() implies (
        #[trigger] tx.inputs[j]).spec_output_pointer() != p by {
            assert(txns[last].inputs[j] == tx.inputs[j]);
        }
        lemma_spend_inputs_untouched(before, tx.inputs, p);
        assert(txns[last] == tx);
        lemma_add_outputs_untouched(spent.0, tx.hash, tx.outputs, p);
    }
}

/// A block leaves untouched every unspent output that none of its inputs
/// spends and none of its outputs replaces.
pub proof fn law_untouched_outputs_are_kept(
    utxo: Map<OutputPointer, Output>,
    txns: Seq<TransactionModel>,
    p: OutputPointer,
)
    requires
        !spent_in(txns, p),
        !created_in(txns, p),
    ensures
        agree_at(utxo_after_transactions(utxo, txns), utxo, p),
{
    let after = apply_transactions((utxo, Seq::empty()), txns);
    lemma_apply_untouched((utxo, Seq::empty()), txns, p);
    lemma_apply_deferred((utxo, Seq::empty()), txns, p);
    assert(!data_request_spent_in(txns, p)) by {
        if data_request_spent_in(txns, p) {
            let (k, j) = choose|k: int, j: int|
                0 <= k < txns.len() && 0 <= j < txns[k].inputs.len() && (
                #[trigger] txns[k].inputs[j]) is DataRequest
                    && txns[k].inputs[j].spec_output_pointer() == p;
            assert(txns[k].inputs[j].spec_output_pointer() == p);
        }
    }
    lemma_remove_all(after.0, after.1, p);
}

/// An output that a data request input of a block spends is gone once the
/// block is applied, whatever else the block does.
pub proof fn law_data_request_inputs_are_spent(
    utxo: Map<OutputPointer, Output>,
    txns: Seq<TransactionModel>,
    p: OutputPointer,
)
    requires
        data_request_spent_in(txns, p),
    ensures
        !utxo_after_transactions(utxo, txns).dom().contains(p),
{
    let after = apply_transactions((utxo, Seq::empty()), txns);
    lemma_apply_deferred((utxo, Seq::empty()), txns, p);
    lemma_remove_all(after.0, after.1, p);
}

/// The output at index `i` of the transaction at index `k` of a block is
/// unspent after the block, at the pointer made of that transaction's
/// identifier and `i`, unless a later transaction spends or replaces it or a
/// data request input spends it.
pub proof fn law_new_outputs_are_unspent(
    utxo: Map<OutputPointer, Output>,
    txns: Seq<TransactionModel>,
    k: int,
    i: int,
)
    requires
        0 <= k < txns.len(),
        0 <= i < txns[k].outputs.len(),
        txns[k].outputs.len() <= 0x1_0000_0000,
        forall|k2: int| k < k2 < txns.len() ==> (#[trigger] txns[k2]).hash != txns[k].hash,
        forall|k2: int, j: int|
            k < k2 < txns.len() && 0 <= j < txns[k2].inputs.len() ==> (
            #[trigger] txns[k2].inputs[j]).spec_output_pointer() != pointer_to(txns[k].hash, i),
        !data_request_spent_in(
            txns,
            pointer_to(txns[k].hash, i),
        ),
    ensures
        ({
            let p = pointer_to(txns[k].hash, i);
            &&& utxo_after_transactions(utxo, txns).dom().contains(p)
            &&& utxo_after_transactions(utxo, txns)[p] == txns[k].outputs[i]
        }),
{
    let p = pointer_to(txns[k].hash, i);
    let after = apply_transactions((utxo, Seq::empty()), txns);
    lemma_apply_fresh((utxo, Seq::empty()), txns, k, i);
    lemma_apply_deferred((utxo, Seq::empty()), txns, p);
    lemma_remove_all(after.0, after.1, p);
}

/// A block without transactions leaves the unspent outputs as they were.
pub proof fn law_empty_block_changes_nothing(utxo: Map<OutputPointer, Output>)
    ensures
        utxo_after_transactions(utxo, Seq::empty()) == utxo,
{
}

proof fn lemma_shift_halves(x: u64, h: u32)
    by (bit_vector)
    requires
        h < 63,
    ensures
        x >> ((h + 1) as u32) == (x >> h) / 2,
{
}

proof fn lemma_shift_is_ordered(x: u64, h1: u32, h2: u32)
    by (bit_vector)
    requires
        h1 <= h2 < 64,
    ensures
        x >> h2 <= x >> h1,
{
}

proof fn lemma_last_halving_is_zero(x: u64)
    by (bit_vector)
    requires
        x < 0x8000_0000_0000_0000,
    ensures
        x >> 63u32 == 0,
{
}

/// Every period of `HALVING_PERIOD` epochs halves the block reward, rounding
/// down.
pub proof fn law_block_reward_halves(epoch: Epoch)
    requires
        epoch + HALVING_PERIOD <= u32::MAX,
    ensures
        spec_block_reward((epoch + HALVING_PERIOD) as u32) == spec_block_reward(epoch) / 2,
{
    let later = (epoch + HALVING_PERIOD) as u32;
    let h = epoch / HALVING_PERIOD;
    assert(later / HALVING_PERIOD == h + 1);
    let x = (500 * SATOWITS_PER_WIT) as u64;
    if h < 63 {
        lemma_shift_halves(x, h);
    } else if h == 63 {
        lemma_last_halving_is_zero(x);
    }
}

/// The block reward never grows from one epoch to a later one.
pub proof fn law_block_reward_never_grows(earlier: Epoch, later: Epoch)
    requires
        earlier <= later,
    ensures
        spec_block_reward(later) <= spec_block_reward(earlier),
{
    let h1 = earlier / HALVING_PERIOD;
    let h2 = later / HALVING_PERIOD;
    vstd::arithmetic::div_mod::lemma_div_is_ordered(earlier as int, later as int, HALVING_PERIOD as int);
    if h2 < 64 {
        lemma_shift_is_ordered((500 * SATOWITS_PER_WIT) as u64, h1, h2);
    }
}

/// The rewards of a data request go down by one fee at each stage: the
/// commit reward is the reveal reward plus the reveal fee, and the reveal
/// reward is the value transfer reward plus the tally fee.
pub proof fn law_rewards_differ_by_fees(dr_output: DataRequestOutput)
    ensures
        spec_commit_reward(dr_output) == spec_reveal_reward(dr_output) + dr_output.reveal_fee,
        spec_reveal_reward(dr_output) == spec_dr_vt_reward(dr_output) + dr_output.tally_fee,
{
}

/// The tally change and the reveal rewards of the witnesses that revealed
/// add up to the reveal rewards of all witnesses; with every witness
/// revealed, there is no change.
pub proof fn law_tally_change_completes_reveal_rewards(
    dr_output: DataRequestOutput,
    n_reveals: u64,
)
    requires
        n_reveals <= dr_output.witnesses,
    ensures
        spec_tally_change(dr_output, n_reveals) + n_reveals * spec_reveal_reward(dr_output)
            == dr_output.witnesses * spec_reveal_reward(dr_output),
        n_reveals == dr_output.witnesses ==> spec_tally_change(dr_output, n_reveals) == 0,
{
    let r = spec_reveal_reward(dr_output);
    let w = dr_output.witnesses as int;
    let n = n_reveals as int;
    assert(r * (w - n) + n * r == w * r) by (nonlinear_arith);
}

proof fn lemma_output_entry_recorded(
    outputs: Seq<Output>,
    id: crate::chain::Hash,
    epoch: Epoch,
    block_hash: crate::chain::Hash,
    i: int,
    dr: DataRequestOutput,
)
    requires
        0 <= i < outputs.len(),
        outputs[i] == Output::DataRequest(dr),
    ensures
        data_request_entries(outputs, id, epoch, block_hash).contains(
            DataRequestEntry { pointer: pointer_to(id, i), epoch, block_hash, output: dr },
        ),
    decreases outputs.len(),
{
    let e = DataRequestEntry { pointer: pointer_to(id, i), epoch, block_hash, output: dr };
    let prefix = outputs.drop_last();
    let before = data_request_entries(prefix, id, epoch, block_hash);
    if i == outputs.len() - 1 {
        assert(before.push(e)[before.len() as int] == e);
    } else {
        assert(prefix[i] == outputs[i]);
        lemma_output_entry_recorded(prefix, id, epoch, block_hash, i, dr);
        let j = choose|j: int| 0 <= j < before.len() && before[j] == e;
        match outputs.last() {
            Output::DataRequest(d) => {
                assert(before.push(
                    DataRequestEntry {
                        pointer: pointer_to(id, outputs.len() - 1),
                        epoch,
                        block_hash,
                        output: d,
                    },
                )[j] == e);
            },
            _ => {},
        }
    }
}

/// Every data request output of a block is recorded in the data request
/// pool, at its pointer, with the block's epoch and identifier.
pub proof fn law_data_requests_of_a_block_are_recorded(
    txns: Seq<TransactionModel>,
    epoch: Epoch,
    block_hash: crate::chain::Hash,
    k: int,
    i: int,
    dr: DataRequestOutput,
)
    requires
        0 <= k < txns.len(),
        0 <= i < txns[k].outputs.len(),
        txns[k].outputs[i] == Output::DataRequest(dr),
    ensures
        block_data_requests(txns, epoch, block_hash).contains(
            DataRequestEntry { pointer: pointer_to(txns[k].hash, i), epoch, block_hash, output: dr },
        ),
    decreases txns.len(),
{
    let e = DataRequestEntry { pointer: pointer_to(txns[k].hash, i), epoch, block_hash, output: dr };
    let prefix = txns.drop_last();
    let before = block_data_requests(prefix, epoch, block_hash);
    let tx = txns.last();
    let own = data_request_entries(tx.outputs, tx.hash, epoch, block_hash);
    if k == txns.len() - 1 {
        lemma_output_entry_recorded(tx.outputs, tx.hash, epoch, block_hash, i, dr);
        let j = choose|j: int| 0 <= j < own.len() && own[j] == e;
        assert((before + own)[before.len() + j] == e);
    } else {
        assert(prefix[k] == txns[k]);
        law_data_requests_of_a_block_are_recorded(prefix, epoch, block_hash, k, i, dr);
        let j = choose|j: int| 0 <= j < before.len() && before[j] == e;
        assert((before + own)[j] == e);
    }
}

/// The Merkle root over no leaf is the digest of no bytes, and over one leaf
/// it is that leaf.
pub proof fn law_merkle_root_of_few_leaves(leaf: Seq<u8>)
    ensures
        merkle_root(Seq::empty()) == sha256_digest(Seq::empty()),
        merkle_root(seq![leaf]) == leaf,
{
}

/// Once a block is applied, no pending transaction has the identifier of a
/// transaction of the block, and every pending transaction whose identifier
/// is not among the block's stays pending.
pub proof fn law_block_transactions_leave_the_pool(
    pool: Seq<TransactionModel>,
    txns: Seq<TransactionModel>,
    t: TransactionModel,
)
    ensures
        pool_without_block(pool, txns).contains(t) <==> (pool.contains(t)
            && !has_transaction_id(txns, t.hash)),
    decreases pool.len(),
{
    if pool.len() > 0 {
        let prefix = pool.drop_last();
        let rest = pool_without_block(prefix, txns);
        law_block_transactions_leave_the_pool(prefix, txns, t);
        let last = pool.last();
        if pool.contains(t) && !has_transaction_id(txns, t.hash) {
            let i = choose|i: int| 0 <= i < pool.len() && pool[i] == t;
            if i < pool.len() - 1 {
                assert(prefix[i] == t);
                if !has_transaction_id(txns, last.hash) {
                    let j = choose|j: int| 0 <= j < rest.len() && rest[j] == t;
                    assert(rest.push(last)[j] == t);
                }
            } else {
                assert(rest.push(last)[rest.len() as int] == t);
            }
        }
        if pool_without_block(pool, txns).contains(t) {
            let r = pool_without_block(pool, txns);
            let j = choose|j: int| 0 <= j < r.len() && r[j] == t;
            if j < rest.len() {
                assert(rest[j] == t);
                let i = choose|i: int| 0 <= i < prefix.len() && prefix[i] == t;
                assert(pool[i] == t);
            } else {
                assert(t == last);
                assert(pool[pool.len() - 1] == t);
            }
        }
    }
}

proof fn lemma_spend_inputs_never_adds(state: LedgerState, inputs: Seq<Input>, p: OutputPointer)
    requires
        !state.0.dom().contains(p),
    ensures
        !spend_inputs(state, inputs).0.dom().contains(p),
    decreases inputs.len(),
{
    if inputs.len() > 0 {
        lemma_spend_inputs_never_adds(state, inputs.drop_last(), p);
    }
}

proof fn lemma_spend_inputs_removes(state: LedgerState, inputs: Seq<Input>, j: int)
    requires
        0 <= j < inputs.len(),
        !(inputs[j] is DataRequest),
    ensures
        !spend_inputs(state, inputs).0.dom().contains(inputs[j].spec_output_pointer()),
    decreases inputs.len(),
{
    let p = inputs[j].spec_output_pointer();
    let prefix = inputs.drop_last();
    if j < inputs.len() - 1 {
        assert(prefix[j] == inputs[j]);
        lemma_spend_inputs_removes(state, prefix, j);
    } else {
        assert(inputs.last() == inputs[j]);
    }
}

proof fn lemma_apply_removes(state: LedgerState, txns: Seq<TransactionModel>, k: int, j: int)
    requires
        0 <= k < txns.len(),
        0 <= j < txns[k].inputs.len(),
        !(txns[k].inputs[j] is DataRequest),
        forall|k2: int, i: int|
            k <= k2 < txns.len() && 0 <= i < txns[k2].outputs.len() ==> #[trigger] pointer_to(
                txns[k2].hash,
                i,
            ) != txns[k].inputs[j].spec_output_pointer(),
    ensures
        !apply_transactions(state, txns).0.dom().contains(txns[k].inputs[j].spec_output_pointer()),
    decreases txns.len(),
{
    let p = txns[k].inputs[j].spec_output_pointer();
    let prefix = txns.drop_last();
    let last = txns.len() - 1;
    let tx = txns.last();
    let before = apply_transactions(state, prefix);
    let spent = spend_inputs(before, tx.inputs);
    assert(tx == txns[last]);
    if k == last {
        lemma_spend_inputs_removes(before, tx.inputs, j);
    } else {
        assert(prefix[k] == txns[k]);
        assert forall|k2: int, i: int|
            k <= k2 < prefix.len() && 0 <= i < prefix[k2].outputs.len() implies #[trigger] pointer_to(
            prefix[k2].hash,
            i,
        ) != prefix[k].inputs[j].spec_output_pointer() by {
            assert(prefix[k2] == txns[k2]);
        }
        lemma_apply_removes(state, prefix, k, j);
        lemma_spend_inputs_never_adds(before, tx.inputs, p);
    }
    assert forall|i: int| 0 <= i < tx.outputs.len() implies #[trigger] pointer_to(tx.hash, i) != p by {
        assert(pointer_to(txns[last].hash, i) != p);
    }
    lemma_add_outputs_untouched(spent.0, tx.hash, tx.outputs, p);
}

/// An output that a commit, reveal or value transfer input of a transaction
/// of a block spends is not unspent after the block, unless that transaction
/// or a later one adds an output at the same pointer.
pub proof fn law_spent_inputs_are_removed(
    utxo: Map<OutputPointer, Output>,
    txns: Seq<TransactionModel>,
    k: int,
    j: int,
)
    requires
        0 <= k < txns.len(),
        0 <= j < txns[k].inputs.len(),
        !(txns[k].inputs[j] is DataRequest),
        forall|k2: int, i: int|
            k <= k2 < txns.len() && 0 <= i < txns[k2].outputs.len() ==> #[trigger] pointer_to(
                txns[k2].hash,
                i,
            ) != txns[k].inputs[j].spec_output_pointer(),
    ensures
        !utxo_after_transactions(utxo, txns).dom().contains(
            txns[k].inputs[j].spec_output_pointer(),
        ),
{
    let p = txns[k].inputs[j].spec_output_pointer();
    let after = apply_transactions((utxo, Seq::empty()), txns);
    lemma_apply_removes((utxo, Seq::empty()), txns, k, j);
    lemma_remove_all(after.0, after.1, p);
}

/// A block is accepted exactly when its Merkle root is right, its epoch is
/// neither later than the current one nor earlier than the tip's, and it
/// builds on the genesis block or on the tip's previous block.
pub proof fn law_block_acceptance(
    block: BlockModel,
    current_epoch: Epoch,
    chain_beacon: CheckpointBeacon,
    genesis_block_hash: crate::chain::Hash,
)
    ensures
        block_error(block, current_epoch, chain_beacon, genesis_block_hash) is None <==> {
            &&& merkle_tree_is_valid(block)
            &&& block.block_header.beacon.checkpoint <= current_epoch
            &&& chain_beacon.checkpoint <= block.block_header.beacon.checkpoint
            &&& (block.block_header.beacon.hash_prev_block == genesis_block_hash
                || block.block_header.beacon.hash_prev_block == chain_beacon.hash_prev_block)
        },
{
}

/// A block with a right Merkle root and an epoch between the tip's and the
/// current one, that builds neither on the genesis block nor on the tip's
/// previous block, is refused for an unknown previous hash, however far its
/// epoch is from the tip's.
pub proof fn law_unknown_previous_block_is_refused(
    block: BlockModel,
    current_epoch: Epoch,
    chain_beacon: CheckpointBeacon,
    genesis_block_hash: crate::chain::Hash,
)
    requires
        merkle_tree_is_valid(block),
        block.block_header.beacon.checkpoint <= current_epoch,
        chain_beacon.checkpoint <= block.block_header.beacon.checkpoint,
        block.block_header.beacon.hash_prev_block != genesis_block_hash,
        block.block_header.beacon.hash_prev_block != chain_beacon.hash_prev_block,
    ensures
        block_error(block, current_epoch, chain_beacon, genesis_block_hash) == Some(
            BlockValidationError::PreviousHashNotKnown,
        ),
{
}

/// A block with a right Merkle root whose epoch is later than the current
/// one is refused as coming from the future; one whose epoch is not later,
/// but earlier than the tip's, is refused as older than the tip; a wrong
/// Merkle root is refused before anything else.
pub proof fn law_block_refusals_by_epoch(
    block: BlockModel,
    current_epoch: Epoch,
    chain_beacon: CheckpointBeacon,
    genesis_block_hash: crate::chain::Hash,
)
    ensures
        !merkle_tree_is_valid(block) ==> block_error(
            block,
            current_epoch,
            chain_beacon,
            genesis_block_hash,
        ) == Some(BlockValidationError::NotValidMerkleTree),
        merkle_tree_is_valid(block) && block.block_header.beacon.checkpoint > current_epoch
            ==> block_error(block, current_epoch, chain_beacon, genesis_block_hash) == Some(
            BlockValidationError::BlockFromFuture,
        ),
        merkle_tree_is_valid(block) && block.block_header.beacon.checkpoint <= current_epoch
            && chain_beacon.checkpoint > block.block_header.beacon.checkpoint ==> block_error(
            block,
            current_epoch,
            chain_beacon,
            genesis_block_hash,
        ) == Some(BlockValidationError::BlockOlderThanTip),
{
}

/// The share of the value that each witness of a data request gets, before
/// the commit fee, is the largest amount that the witnesses (the backup
/// witnesses not among them) can each get out of the value.
pub proof fn law_commit_reward_is_share_per_witness(dr_output: DataRequestOutput)
    requires
        dr_output.witnesses > 0,
    ensures
        ({
            let share = spec_commit_reward(dr_output) + dr_output.commit_fee;
            &&& 0 <= share
            &&& share * dr_output.witnesses <= dr_output.value
            &&& dr_output.value < (share + 1) * dr_output.witnesses
        }),
{
    let w = dr_output.witnesses as int;
    let v = dr_output.value as int;
    let q = v / w;
    vstd::arithmetic::div_mod::lemma_fundamental_div_mod(v, w);
    assert(dr_output.value / (dr_output.witnesses as u64) == q);
    assert(0 <= v % w < w) by {
        vstd::arithmetic::div_mod::lemma_mod_bound(v, w);
    }
    assert(q >= 0) by {
        vstd::arithmetic::div_mod::lemma_div_pos_is_pos(v, w);
    }
    assert(q * w <= v && v < (q + 1) * w) by (nonlinear_arith)
        requires
            v == w * q + v % w,
            0 <= v % w < w,
    ;
}

/// The rewards of a data request do not depend on its backup witnesses.
pub proof fn law_rewards_ignore_backup_witnesses(a: DataRequestOutput, b: DataRequestOutput)
    requires
        a.value == b.value,
        a.witnesses == b.witnesses,
        a.commit_fee == b.commit_fee,
        a.reveal_fee == b.reveal_fee,
        a.tally_fee == b.tally_fee,
    ensures
        spec_commit_reward(a) == spec_commit_reward(b),
        spec_reveal_reward(a) == spec_reveal_reward(b),
        spec_dr_vt_reward(a) == spec_dr_vt_reward(b),
        forall|n: u64| spec_tally_change(a, n) == spec_tally_change(b, n),
{
}

/// A transaction is tagged by the kind of its last output: data request,
/// commit, reveal and tally outputs give their own kind whatever the inputs,
/// a value transfer output gives a mint when there is no input and a value
/// transfer otherwise, and no output gives an invalid type.
pub proof fn law_tag_follows_last_output(tx: TransactionModel)
    ensures
        tx.outputs.len() == 0 ==> spec_transaction_tag(tx) == TransactionType::InvalidType,
        tx.outputs.len() > 0 ==> match tx.outputs[tx.outputs.len() - 1] {
            Output::DataRequest(_) => spec_transaction_tag(tx) == TransactionType::DataRequest,
            Output::Commit(_) => spec_transaction_tag(tx) == TransactionType::Commit,
            Output::Reveal(_) => spec_transaction_tag(tx) == TransactionType::Reveal,
            Output::Tally(_) => spec_transaction_tag(tx) == TransactionType::Tally,
            Output::ValueTransfer(_) => spec_transaction_tag(tx) == (if tx.inputs.len() == 0 {
                TransactionType::Mint
            } else {
                TransactionType::ValueTransfer
            }),
        },
{
}

/// Two transactions whose last outputs are of the same kind get the same tag,
/// whatever their inputs, unless that kind is value transfer and one of them
/// has inputs while the other has none.
pub proof fn law_tag_ignores_inputs(a: TransactionModel, b: TransactionModel)
    requires
        a.outputs.len() > 0,
        b.outputs.len() > 0,
        ({
            let la = a.outputs[a.outputs.len() - 1];
            let lb = b.outputs[b.outputs.len() - 1];
            ||| la is DataRequest && lb is DataRequest
            ||| la is Commit && lb is Commit
            ||| la is Reveal && lb is Reveal
            ||| la is Tally && lb is Tally
            ||| la is ValueTransfer && lb is ValueTransfer && (a.inputs.len() == 0) == (
            b.inputs.len() == 0)
        }),
    ensures
        spec_transaction_tag(a) == spec_transaction_tag(b),
{
}

/// Two to the power `n`.
pub open spec fn power_of_two(n: nat) -> nat
    decreases n,
{
    if n == 0 {
        1
    } else {
        2 * power_of_two((n - 1) as nat)
    }
}

proof fn lemma_power_of_two_positive(n: nat)
    ensures
        power_of_two(n) >= 1,
    decreases n,
{
    if n > 0 {
        lemma_power_of_two_positive((n - 1) as nat);
    }
}

/// For two leaves or more, the Merkle root is the root over the level
/// above, in which each pair of leaves from the left is joined by the digest
/// of the two, one after the other, and an odd last leaf goes up as it is.
pub proof fn law_merkle_root_joins_pairs(leaves: Seq<Seq<u8>>)
    requires
        leaves.len() >= 2,
    ensures
        merkle_root(leaves) == merkle_root(
            Seq::new(
                ((leaves.len() + 1) / 2) as nat,
                |i: int|
                    if 2 * i + 1 < leaves.len() {
                        sha256_digest(leaves[2 * i] + leaves[2 * i + 1])
                    } else {
                        leaves[2 * i]
                    },
            ),
        ),
{
    let up = Seq::new(
        ((leaves.len() + 1) / 2) as nat,
        |i: int|
            if 2 * i + 1 < leaves.len() {
                sha256_digest(leaves[2 * i] + leaves[2 * i + 1])
            } else {
                leaves[2 * i]
            },
    );
    assert(merkle_level(leaves) =~= up);
}

/// Over a number of leaves that is twice a power of two, the Merkle root is
/// the digest of the root over the first half followed by the root over the
/// second half: the tree is balanced.
pub proof fn law_merkle_root_of_halves(leaves: Seq<Seq<u8>>, n: nat)
    requires
        leaves.len() == 2 * power_of_two(n),
    ensures
        merkle_root(leaves) == sha256_digest(
            merkle_root(leaves.take(power_of_two(n) as int)) + merkle_root(
                leaves.skip(power_of_two(n) as int),
            ),
        ),
    decreases n,
{
    let half = power_of_two(n) as int;
    let left = leaves.take(half);
    let right = leaves.skip(half);
    lemma_power_of_two_positive(n);
    let up = merkle_level(leaves);
    if n == 0 {
        assert(up.len() == 1);
        assert(merkle_root(up) == up[0]);
        assert(left.len() == 1 && left[0] == leaves[0]);
        assert(right.len() == 1 && right[0] == leaves[1]);
    } else {
        let quarter = power_of_two((n - 1) as nat) as int;
        lemma_power_of_two_positive((n - 1) as nat);
        assert(half == 2 * quarter);
        assert(up.len() == half);
        let up_left = merkle_level(left);
        let up_right = merkle_level(right);
        assert(up_left.len() == quarter);
        assert(up_right.len() == quarter);
        assert(up.take(quarter) =~= up_left) by {
            assert forall|i: int| 0 <= i < quarter implies up.take(quarter)[i] == up_left[i] by {
                assert(left[2 * i] == leaves[2 * i]);
                assert(left[2 * i + 1] == leaves[2 * i + 1]);
            }
        }
        assert(up.skip(quarter) =~= up_right) by {
            assert forall|i: int| 0 <= i < quarter implies up.skip(quarter)[i] == up_right[i] by {
                assert(right[2 * i] == leaves[2 * (i + quarter)]);
                assert(right[2 * i + 1] == leaves[2 * (i + quarter) + 1]);
            }
        }
        law_merkle_root_of_halves(up, (n - 1) as nat);
        assert(merkle_root(left) == merkle_root(up_left));
        assert(merkle_root(right) == merkle_root(up_right));
    }
}

} // verus!
