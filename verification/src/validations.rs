use vstd::prelude::*;

use crate::chain::{
    copy_transactions, Block, BlockModel, CheckpointBeacon, DataRequestOutput, Epoch, Input,
    Output, OutputPointer, Transaction, TransactionModel, TransactionType,
};
use crate::data_request::{block_data_requests, DataRequestPool};
use crate::merkle::{digests_view, merkle_root};
use crate::utxo::UnspentOutputsPool;

verus! {

/// The transactions that wait to be included in a block.
pub struct TransactionsPool {
    pub transactions: Vec<Transaction>,
}

/// A block that passed validation, with the unspent outputs, the pending
/// transactions and the data requests after it.
pub struct BlockInChain {
    pub block: Block,
    pub utxo_set: UnspentOutputsPool,
    pub transactions_pool: TransactionsPool,
    pub data_request_pool: DataRequestPool,
}

/// Whether some transaction of `txns` has the identifier `id`.
pub open spec fn has_transaction_id(txns: Seq<TransactionModel>, id: crate::chain::Hash) -> bool {
    exists|k: int| 0 <= k < txns.len() && (#[trigger] txns[k]).hash == id
}

/// The pending transactions `pool` without those whose identifier is among
/// the transactions `txns` of a block, in their order.
pub open spec fn pool_without_block(
    pool: Seq<TransactionModel>,
    txns: Seq<TransactionModel>,
) -> Seq<TransactionModel>
    decreases pool.len(),
{
    if pool.len() == 0 {
        Seq::empty()
    } else {
        let rest = pool_without_block(pool.drop_last(), txns);
        if has_transaction_id(txns, pool.last().hash) {
            rest
        } else {
            rest.push(pool.last())
        }
    }
}

/// Whether some transaction of `txns` has the identifier `id`.
fn contains_transaction_id(txns: &Vec<Transaction>, id: &crate::chain::Hash) -> (r: bool)
    ensures
        r == has_transaction_id(crate::chain::transaction_models(txns@), *id),
{
    let ghost models = crate::chain::transaction_models(txns@);
    let mut k: usize = 0;
    while k < txns.len()
        invariant
            k <= txns.len(),
            models == crate::chain::transaction_models(txns@),
            forall|j: int| 0 <= j < k ==> (#[trigger] models[j]).hash != *id,
        decreases txns.len() - k,
    {
        if txns[k].hash.same_as(id) {
            assert(models[k as int].hash == *id);
            return true;
        }
        k = k + 1;
    }
    false
}

/// The pending transactions of `txn_pool` that `block` does not include.
fn remove_block_transactions(txn_pool: &TransactionsPool, block: &Block) -> (r: TransactionsPool)
    ensures
        crate::chain::transaction_models(r.transactions@) == pool_without_block(
            crate::chain::transaction_models(txn_pool.transactions@),
            block@.txns,
        ),
{
    let ghost pool = crate::chain::transaction_models(txn_pool.transactions@);
    let mut kept: Vec<Transaction> = Vec::new();
    let mut i: usize = 0;
    while i < txn_pool.transactions.len()
        invariant
            i <= txn_pool.transactions.len(),
            pool == crate::chain::transaction_models(txn_pool.transactions@),
            crate::chain::transaction_models(kept@) == pool_without_block(
                pool.take(i as int),
                block@.txns,
            ),
        decreases txn_pool.transactions.len() - i,
    {
        proof {
            assert(pool.take(i + 1).drop_last() =~= pool.take(i as int));
        }
        let transaction = &txn_pool.transactions[i];
        if !contains_transaction_id(&block.txns, &transaction.hash) {
            let ghost before = kept@;
            kept.push(transaction.duplicate());
            proof {
                assert(crate::chain::transaction_models(kept@) =~= crate::chain::transaction_models(
                    before,
                ).push(transaction@));
            }
        }
        i = i + 1;
    }
    proof {
        assert(pool.take(i as int) =~= pool);
    }
    TransactionsPool { transactions: kept }
}

/// Why a transaction was refused.
#[derive(Clone, Copy, Debug, PartialEq, Eq)]
pub enum TransactionValidationError {
    NotValidTransaction,
}

impl TransactionValidationError {
    /// The message that describes the error.
    pub fn to_string(&self) -> (r: String)
        ensures
            r@ == "The transaction is not valid"@,
    {
        String::from_str("The transaction is not valid")
    }
}

/// Why a block, or a block candidate, was refused.
#[derive(Clone, Copy, Debug, PartialEq, Eq)]
pub enum BlockValidationError {
    NotValidPoe,
    NotValidMerkleTree,
    BlockFromFuture,
    BlockOlderThanTip,
    PreviousHashNotKnown,
    CandidateFromDifferentEpoch,
}

impl BlockValidationError {
    /// The message that describes the error.
    pub open spec fn spec_message(self) -> Seq<char> {
        match self {
            BlockValidationError::NotValidPoe => "The block has an invalid PoE"@,
            BlockValidationError::NotValidMerkleTree => "The block has an invalid Merkle Tree"@,
            BlockValidationError::BlockFromFuture => "Block epoch from the future"@,
            BlockValidationError::BlockOlderThanTip => "Ignoring block older than highest block checkpoint"@,
            BlockValidationError::PreviousHashNotKnown => "Ignoring block because previous hash is unknown"@,
            BlockValidationError::CandidateFromDifferentEpoch => "Candidate epoch different from current epoch"@,
        }
    }

    /// The message that describes the error.
    pub fn to_string(&self) -> (r: String)
        ensures
            r@ == self.spec_message(),
    {
        match self {
            BlockValidationError::NotValidPoe => String::from_str("The block has an invalid PoE"),
            BlockValidationError::NotValidMerkleTree => String::from_str(
                "The block has an invalid Merkle Tree",
            ),
            BlockValidationError::BlockFromFuture => String::from_str("Block epoch from the future"),
            BlockValidationError::BlockOlderThanTip => String::from_str(
                "Ignoring block older than highest block checkpoint",
            ),
            BlockValidationError::PreviousHashNotKnown => String::from_str(
                "Ignoring block because previous hash is unknown",
            ),
            BlockValidationError::CandidateFromDifferentEpoch => String::from_str(
                "Candidate epoch different from current epoch",
            ),
        }
    }
}

/// Why validation failed: a refused transaction or a refused block.
#[derive(Clone, Copy, Debug, PartialEq, Eq)]
pub enum ValidationError {
    Transaction(TransactionValidationError),
    Block(BlockValidationError),
}

// ---------------------------------------------------------------------------
// How a block changes the unspent outputs
// ---------------------------------------------------------------------------

/// The unspent outputs, and the pointers whose removal waits for the end of
/// the block.
pub type LedgerState = (Map<OutputPointer, Output>, Seq<OutputPointer>);

/// Spends `inputs` in order: the output of an input that spends a data
/// request waits for the end of the block; any other is removed at once.
pub open spec fn spend_inputs(state: LedgerState, inputs: Seq<Input>) -> LedgerState
    decreases inputs.len(),
{
    if inputs.len() == 0 {
        state
    } else {
        let before = spend_inputs(state, inputs.drop_last());
        let input = inputs.last();
        match input {
            Input::DataRequest(_) => (before.0, before.1.push(input.spec_output_pointer())),
            _ => (before.0.remove(input.spec_output_pointer()), before.1),
        }
    }
}

/// Adds `outputs` in order, the output at index `i` at the pointer
/// (`id`, `i`).
pub open spec fn add_outputs(
    utxo: Map<OutputPointer, Output>,
    id: crate::chain::Hash,
    outputs: Seq<Output>,
) -> Map<OutputPointer, Output>
    decreases outputs.len(),
{
    if outputs.len() == 0 {
        utxo
    } else {
        add_outputs(utxo, id, outputs.drop_last()).insert(
            OutputPointer { transaction_id: id, output_index: (outputs.len() - 1) as u32 },
            outputs.last(),
        )
    }
}

/// The effect of one transaction: its inputs are spent, then its outputs
/// added.
pub open spec fn apply_transaction(state: LedgerState, tx: TransactionModel) -> LedgerState {
    let spent = spend_inputs(state, tx.inputs);
    (add_outputs(spent.0, tx.hash, tx.outputs), spent.1)
}

/// The effect of the transactions `txns`, in order.
pub open spec fn apply_transactions(state: LedgerState, txns: Seq<TransactionModel>) -> LedgerState
    decreases txns.len(),
{
    if txns.len() == 0 {
        state
    } else {
        apply_transaction(apply_transactions(state, txns.drop_last()), txns.last())
    }
}

/// `utxo` without the pointers `ptrs`.
pub open spec fn remove_all(
    utxo: Map<OutputPointer, Output>,
    ptrs: Seq<OutputPointer>,
) -> Map<OutputPointer, Output>
    decreases ptrs.len(),
{
    if ptrs.len() == 0 {
        utxo
    } else {
        remove_all(utxo, ptrs.drop_last()).remove(ptrs.last())
    }
}

/// The unspent outputs after the transactions `txns` of a block.
pub open spec fn utxo_after_transactions(
    utxo: Map<OutputPointer, Output>,
    txns: Seq<TransactionModel>,
) -> Map<OutputPointer, Output> {
    let after = apply_transactions((utxo, Seq::empty()), txns);
    remove_all(after.0, after.1)
}

// ---------------------------------------------------------------------------
// Validation
// ---------------------------------------------------------------------------

/// Function to validate a transaction: every transaction is accepted, and the
/// unspent outputs are left as they are.
pub fn validate_transaction(
    _transaction: &Transaction,
    _utxo_set: &mut UnspentOutputsPool,
) -> (r: bool)
    ensures
        r,
        final(_utxo_set)@ == old(_utxo_set)@,
{
    true
}

/// Spends the inputs of `transaction` from `utxo_set`, the data request ones
/// by adding their pointers to `remove_later`.
fn spend_transaction_inputs(
    transaction: &Transaction,
    utxo_set: &mut UnspentOutputsPool,
    remove_later: &mut Vec<OutputPointer>,
)
    ensures
        (final(utxo_set)@, final(remove_later)@) == spend_inputs(
            (old(utxo_set)@, old(remove_later)@),
            transaction.inputs@,
        ),
{
    let mut j: usize = 0;
    while j < transaction.inputs.len()
        invariant
            j <= transaction.inputs.len(),
            (utxo_set@, remove_later@) == spend_inputs(
                (old(utxo_set)@, old(remove_later)@),
                transaction.inputs@.take(j as int),
            ),
        decreases transaction.inputs.len() - j,
    {
        proof {
            assert(transaction.inputs@.take(j + 1).drop_last() =~= transaction.inputs@.take(
                j as int,
            ));
        }
        let input = &transaction.inputs[j];
        // Obtain the OutputPointer of each input and remove it from the utxo_set
        let output_pointer = input.output_pointer();
        match input {
            Input::DataRequest(..) => {
                remove_later.push(output_pointer);
            },
            _ => {
                utxo_set.remove(&output_pointer);
            },
        }
        j = j + 1;
    }
    proof {
        assert(transaction.inputs@.take(j as int) =~= transaction.inputs@);
    }
}

/// Adds the outputs of `transaction` to `utxo_set`, each at the pointer made
/// of the transaction's identifier and the output's index.
fn add_transaction_outputs(transaction: &Transaction, utxo_set: &mut UnspentOutputsPool)
    ensures
        final(utxo_set)@ == add_outputs(old(utxo_set)@, transaction.hash, transaction.outputs@),
{
    let txn_hash = transaction.hash();
    let mut index: usize = 0;
    while index < transaction.outputs.len()
        invariant
            index <= transaction.outputs.len(),
            txn_hash == transaction.hash,
            utxo_set@ == add_outputs(
                old(utxo_set)@,
                txn_hash,
                transaction.outputs@.take(index as int),
            ),
        decreases transaction.outputs.len() - index,
    {
        proof {
            assert(transaction.outputs@.take(index + 1).drop_last() =~= transaction.outputs@.take(
                index as int,
            ));
        }
        // Add the new outputs to the utxo_set
        let output_pointer = OutputPointer { transaction_id: txn_hash, output_index: index as u32 };
        utxo_set.insert(output_pointer, transaction.outputs[index]);
        index = index + 1;
    }
    proof {
        assert(transaction.outputs@.take(index as int) =~= transaction.outputs@);
    }
}

/// Function to validate transactions in a block and update a utxo_set and a
/// `TransactionsPool`.
///
/// Each transaction, in order, has its inputs spent and its outputs added;
/// the outputs that data request inputs spend are removed once the whole
/// block is done. The transactions of the block leave the pool of pending
/// transactions. The data requests of the block go to the data request
/// pool.
pub fn validate_transactions(
    utxo_set: &UnspentOutputsPool,
    txn_pool: &TransactionsPool,
    data_request_pool: &DataRequestPool,
    block: &Block,
) -> (r: Result<BlockInChain, ValidationError>)
    ensures
        r is Ok,
        r matches Ok(bic) ==> {
            &&& bic.block@ == block@
            &&& bic.utxo_set@ == utxo_after_transactions(utxo_set@, block@.txns)
            &&& crate::chain::transaction_models(bic.transactions_pool.transactions@)
                == pool_without_block(
                crate::chain::transaction_models(txn_pool.transactions@),
                block@.txns,
            )
            &&& bic.data_request_pool@ == data_request_pool@ + block_data_requests(
                block@.txns,
                block.block_header.beacon.checkpoint,
                block.hash,
            )
        },
{
    let ghost utxo0 = utxo_set@;
    let ghost pool0 = data_request_pool@;
    let mut utxo_set = utxo_set.duplicate();
    let mut data_request_pool = data_request_pool.duplicate();
    let transactions = copy_transactions(&block.txns);
    let ghost txns = block@.txns;
    let epoch = block.block_header.beacon.checkpoint;
    let block_hash = block.hash();
    let mut remove_later: Vec<OutputPointer> = Vec::new();
    let mut k: usize = 0;
    while k < transactions.len()
        invariant
            k <= transactions.len(),
            txns == crate::chain::transaction_models(transactions@),
            txns.len() == transactions.len(),
            (utxo_set@, remove_later@) == apply_transactions(
                (utxo0, Seq::empty()),
                txns.take(k as int),
            ),
            data_request_pool@ == pool0 + block_data_requests(
                txns.take(k as int),
                epoch,
                block_hash,
            ),
        decreases transactions.len() - k,
    {
        proof {
            assert(txns.take(k + 1).drop_last() =~= txns.take(k as int));
            assert(txns.take(k + 1).last() == transactions@[k as int]@);
        }
        let transaction = &transactions[k];
        if validate_transaction(transaction, &mut utxo_set) {
            spend_transaction_inputs(transaction, &mut utxo_set, &mut remove_later);
            add_transaction_outputs(transaction, &mut utxo_set);
            // Add DataRequests from the block into the data_request_pool
            data_request_pool.process_transaction(transaction, epoch, &block_hash);
            proof {
                assert(data_request_pool@ =~= pool0 + block_data_requests(
                    txns.take(k + 1),
                    epoch,
                    block_hash,
                ));
            }
        } else {
            return Err(ValidationError::Transaction(TransactionValidationError::NotValidTransaction));
        }
        k = k + 1;
    }
    proof {
        assert(txns.take(k as int) =~= txns);
    }
    let ghost after = apply_transactions((utxo0, Seq::empty()), txns);
    let mut n: usize = 0;
    while n < remove_later.len()
        invariant
            n <= remove_later.len(),
            remove_later@ == after.1,
            utxo_set@ == remove_all(after.0, after.1.take(n as int)),
        decreases remove_later.len() - n,
    {
        proof {
            assert(after.1.take(n + 1).drop_last() =~= after.1.take(n as int));
        }
        utxo_set.remove(&remove_later[n]);
        n = n + 1;
    }
    proof {
        assert(after.1.take(n as int) =~= after.1);
    }
    let transactions_pool = remove_block_transactions(txn_pool, block);
    Ok(BlockInChain { block: block.duplicate(), utxo_set, transactions_pool, data_request_pool })
}

/// The identifiers of `txns`, as bytes.
pub open spec fn transaction_ids(txns: Seq<TransactionModel>) -> Seq<Seq<u8>> {
    txns.map_values(|t: TransactionModel| t.hash.bytes())
}

/// Whether the header of `block` holds the root of the Merkle tree over the
/// identifiers of its transactions.
pub open spec fn merkle_tree_is_valid(block: BlockModel) -> bool {
    block.block_header.hash_merkle_root.bytes() == merkle_root(transaction_ids(block.txns))
}

/// Function to calculate a merkle tree from a transaction vector: the root of
/// the Merkle tree over the transactions' identifiers.
pub fn merkle_tree_root(transactions: &[Transaction]) -> (r: crate::chain::Hash)
    ensures
        r.bytes() == merkle_root(transaction_ids(crate::chain::transaction_models(transactions@))),
{
    let ghost ids = transaction_ids(crate::chain::transaction_models(transactions@));
    let mut transactions_hashes: Vec<[u8; 32]> = Vec::new();
    let mut i: usize = 0;
    while i < transactions.len()
        invariant
            i <= transactions.len(),
            ids == transaction_ids(crate::chain::transaction_models(transactions@)),
            transactions_hashes.len() == i,
            forall|j: int| 0 <= j < i ==> #[trigger] transactions_hashes@[j]@ == ids[j],
        decreases transactions.len() - i,
    {
        let crate::chain::Hash::SHA256(bytes) = transactions[i].hash();
        transactions_hashes.push(bytes);
        i = i + 1;
    }
    proof {
        assert(digests_view(transactions_hashes@) =~= ids);
    }
    crate::chain::Hash::SHA256(crate::merkle::merkle_tree_root(&transactions_hashes))
}

/// Function to validate block's merkle tree.
pub fn validate_merkle_tree(block: &Block) -> (r: bool)
    ensures
        r == merkle_tree_is_valid(block@),
{
    let merkle_tree = block.block_header.hash_merkle_root;
    let transactions = block.txns.as_slice();
    let root = merkle_tree_root(transactions);
    proof {
        if merkle_tree.bytes() == root.bytes() {
            let crate::chain::Hash::SHA256(a) = merkle_tree;
            let crate::chain::Hash::SHA256(b) = root;
            assert(a =~= b);
        }
    }
    merkle_tree == root
}

/// What the validation of a block finds against it, if anything: the checks
/// of its Merkle root, of its epoch against the current one and the chain's
/// tip, and of the block it builds on, in that order.
pub open spec fn block_error(
    block: BlockModel,
    current_epoch: Epoch,
    chain_beacon: CheckpointBeacon,
    genesis_block_hash: crate::chain::Hash,
) -> Option<BlockValidationError> {
    let block_epoch = block.block_header.beacon.checkpoint;
    let hash_prev_block = block.block_header.beacon.hash_prev_block;
    if !merkle_tree_is_valid(block) {
        Some(BlockValidationError::NotValidMerkleTree)
    } else if block_epoch > current_epoch {
        Some(BlockValidationError::BlockFromFuture)
    } else if chain_beacon.checkpoint > block_epoch {
        Some(BlockValidationError::BlockOlderThanTip)
    } else if hash_prev_block != genesis_block_hash && chain_beacon.hash_prev_block
        != hash_prev_block {
        Some(BlockValidationError::PreviousHashNotKnown)
    } else {
        None
    }
}

/// Function to validate a block: the checks of `block_error`, then the
/// validation of its transactions.
pub fn validate_block(
    block: &Block,
    current_epoch: Epoch,
    chain_beacon: CheckpointBeacon,
    genesis_block_hash: crate::chain::Hash,
    utxo_set: &UnspentOutputsPool,
    txn_pool: &TransactionsPool,
    data_request_pool: &DataRequestPool,
) -> (r: Result<BlockInChain, ValidationError>)
    ensures
        match block_error(block@, current_epoch, chain_beacon, genesis_block_hash) {
            Some(e) => r == Err::<BlockInChain, ValidationError>(ValidationError::Block(e)),
            None => r matches Ok(bic) && {
                &&& bic.block@ == block@
                &&& bic.utxo_set@ == utxo_after_transactions(utxo_set@, block@.txns)
                &&& crate::chain::transaction_models(bic.transactions_pool.transactions@)
                    == pool_without_block(
                    crate::chain::transaction_models(txn_pool.transactions@),
                    block@.txns,
                )
                &&& bic.data_request_pool@ == data_request_pool@ + block_data_requests(
                    block@.txns,
                    block.block_header.beacon.checkpoint,
                    block.hash,
                )
            },
        },
{
    let block_epoch = block.block_header.beacon.checkpoint;
    let hash_prev_block = block.block_header.beacon.hash_prev_block;

    if !verify_poe_block() {
        Err(ValidationError::Block(BlockValidationError::NotValidPoe))
    } else if !validate_merkle_tree(&block) {
        Err(ValidationError::Block(BlockValidationError::NotValidMerkleTree))
    } else if block_epoch > current_epoch {
        Err(ValidationError::Block(BlockValidationError::BlockFromFuture))
    } else if chain_beacon.checkpoint > block_epoch {
        Err(ValidationError::Block(BlockValidationError::BlockOlderThanTip))
    } else if hash_prev_block != genesis_block_hash && chain_beacon.hash_prev_block
        != hash_prev_block {
        Err(ValidationError::Block(BlockValidationError::PreviousHashNotKnown))
    } else {
        validate_transactions(&utxo_set, &txn_pool, &data_request_pool, &block)
    }
}

/// Function to validate a block candidate: it is refused when its epoch is
/// not the current one.
pub fn validate_candidate(block: &Block, current_epoch: Epoch) -> (r: Result<(), ValidationError>)
    ensures
        r == (if block.block_header.beacon.checkpoint != current_epoch {
            Err(ValidationError::Block(BlockValidationError::CandidateFromDifferentEpoch))
        } else {
            Ok(())
        }),
{
    let block_epoch = block.block_header.beacon.checkpoint;

    if !verify_poe_block() {
        Err(ValidationError::Block(BlockValidationError::NotValidPoe))
    } else if block_epoch != current_epoch {
        Err(ValidationError::Block(BlockValidationError::CandidateFromDifferentEpoch))
    } else {
        Ok(())
    }
}

/// The kind of a transaction, told by its last output.
pub open spec fn spec_transaction_tag(tx: TransactionModel) -> TransactionType {
    if tx.outputs.len() == 0 {
        TransactionType::InvalidType
    } else {
        match tx.outputs.last() {
            Output::DataRequest(_) => TransactionType::DataRequest,
            Output::ValueTransfer(_) => if tx.inputs.len() == 0 {
                TransactionType::Mint
            } else {
                TransactionType::ValueTransfer
            },
            Output::Commit(_) => TransactionType::Commit,
            Output::Reveal(_) => TransactionType::Reveal,
            Output::Tally(_) => TransactionType::Tally,
        }
    }
}

/// Function to assign tags to transactions.
pub fn transaction_tag(tx: &Transaction) -> (r: TransactionType)
    ensures
        r == spec_transaction_tag(tx@),
{
    if tx.outputs.len() == 0 {
        return TransactionType::InvalidType;
    }
    match &tx.outputs[tx.outputs.len() - 1] {
        Output::DataRequest(_) => TransactionType::DataRequest,
        Output::ValueTransfer(_) => {
            if tx.inputs.len() == 0 {
                TransactionType::Mint
            } else {
                TransactionType::ValueTransfer
            }
        },
        Output::Commit(_) => TransactionType::Commit,
        Output::Reveal(_) => TransactionType::Reveal,
        Output::Tally(_) => TransactionType::Tally,
    }
}

/// 1 satowit is the minimal unit of value
/// 1 wit = 100_000_000 satowits
pub const SATOWITS_PER_WIT: u64 = 100_000_000;

/// Epochs between two halvings of the block reward.
pub const HALVING_PERIOD: u32 = 1_750_000;

/// The reward of a block mined at `epoch`: 500 wit, halved once for every
/// period of 1_750_000 epochs, and nothing once it has been halved 64 times.
pub open spec fn spec_block_reward(epoch: Epoch) -> u64 {
    let halvings = epoch / HALVING_PERIOD;
    if halvings < 64 {
        (500 * SATOWITS_PER_WIT) as u64 >> halvings
    } else {
        0
    }
}

/// Calculate the block mining reward.
/// Returns "satowits", where 1 wit = 100_000_000 satowits.
pub fn block_reward(epoch: Epoch) -> (r: u64)
    ensures
        r == spec_block_reward(epoch),
{
    let initial_reward: u64 = 500 * SATOWITS_PER_WIT;
    let halvings = epoch / HALVING_PERIOD;
    if halvings < 64 {
        initial_reward >> halvings
    } else {
        0
    }
}

/// Function to check poe validation for blocks: every block passes.
pub fn verify_poe_block() -> (r: bool)
    ensures
        r,
{
    true
}

/// Function to check poe validation for data requests: every data request
/// passes.
pub fn verify_poe_data_request() -> (r: bool)
    ensures
        r,
{
    true
}

/// What each witness of `dr_output` earns for its commitment: its share of
/// the value, less the commit fee.
pub open spec fn spec_commit_reward(dr_output: DataRequestOutput) -> int {
    dr_output.value / (dr_output.witnesses as u64) - dr_output.commit_fee
}

/// What each witness earns for its reveal: the commit reward less the reveal
/// fee.
pub open spec fn spec_reveal_reward(dr_output: DataRequestOutput) -> int {
    spec_commit_reward(dr_output) - dr_output.reveal_fee
}

/// What goes to value transfer for each witness: the reveal reward less the
/// tally fee.
pub open spec fn spec_dr_vt_reward(dr_output: DataRequestOutput) -> int {
    spec_reveal_reward(dr_output) - dr_output.tally_fee
}

/// What the tally gives back: the reveal reward of each witness that did not
/// reveal.
pub open spec fn spec_tally_change(dr_output: DataRequestOutput, n_reveals: u64) -> int {
    spec_reveal_reward(dr_output) * (dr_output.witnesses - n_reveals)
}

/// Function to calculate the commit reward.
pub fn calculate_commit_reward(dr_output: &DataRequestOutput) -> (r: u64)
    requires
        dr_output.witnesses > 0,
        spec_commit_reward(*dr_output) >= 0,
    ensures
        r == spec_commit_reward(*dr_output),
{
    dr_output.value / u64::from(dr_output.witnesses) - dr_output.commit_fee
}

/// Function to calculate the reveal reward.
pub fn calculate_reveal_reward(dr_output: &DataRequestOutput) -> (r: u64)
    requires
        dr_output.witnesses > 0,
        spec_commit_reward(*dr_output) >= 0,
        spec_reveal_reward(*dr_output) >= 0,
    ensures
        r == spec_reveal_reward(*dr_output),
{
    calculate_commit_reward(dr_output) - dr_output.reveal_fee
}

/// Function to calculate the value transfer reward.
pub fn calculate_dr_vt_reward(dr_output: &DataRequestOutput) -> (r: u64)
    requires
        dr_output.witnesses > 0,
        spec_commit_reward(*dr_output) >= 0,
        spec_reveal_reward(*dr_output) >= 0,
        spec_dr_vt_reward(*dr_output) >= 0,
    ensures
        r == spec_dr_vt_reward(*dr_output),
{
    calculate_reveal_reward(dr_output) - dr_output.tally_fee
}

/// Function to calculate the tally change.
pub fn calculate_tally_change(dr_output: &DataRequestOutput, n_reveals: u64) -> (r: u64)
    requires
        dr_output.witnesses > 0,
        spec_commit_reward(*dr_output) >= 0,
        spec_reveal_reward(*dr_output) >= 0,
        n_reveals <= dr_output.witnesses,
        spec_tally_change(*dr_output, n_reveals) <= u64::MAX,
    ensures
        r == spec_tally_change(*dr_output, n_reveals),
{
    calculate_reveal_reward(dr_output) * (u64::from(dr_output.witnesses) - n_reveals)
}

} // verus!
