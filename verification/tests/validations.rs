use sha2::Digest;
use witnet_validations::chain::{
    Block, BlockHeader, CheckpointBeacon, CommitOutput, DataRequestInput, DataRequestOutput,
    Input, Output, OutputPointer, PublicKeyHash, RevealOutput, TallyOutput, Transaction,
    TransactionType, ValueTransferInput, ValueTransferOutput,
};
use witnet_validations::data_request::{DataRequestEntry, DataRequestPool};
use witnet_validations::utxo::UnspentOutputsPool;
use witnet_validations::validations::{
    block_reward, calculate_commit_reward, calculate_dr_vt_reward, calculate_reveal_reward,
    calculate_tally_change, merkle_tree_root, transaction_tag, validate_block,
    validate_candidate, validate_merkle_tree, validate_transaction, validate_transactions,
    verify_poe_block, verify_poe_data_request, BlockValidationError, TransactionValidationError,
    TransactionsPool, ValidationError, HALVING_PERIOD, SATOWITS_PER_WIT,
};

type Hash = witnet_validations::chain::Hash;

fn h(n: u8) -> Hash {
    Hash::SHA256([n; 32])
}

fn sha256(data: &[u8]) -> [u8; 32] {
    sha2::Sha256::digest(data).into()
}

fn pkh(n: u8) -> PublicKeyHash {
    PublicKeyHash { hash: [n; 20] }
}

fn vt(value: u64) -> Output {
    Output::ValueTransfer(ValueTransferOutput { pkh: pkh(1), value })
}

fn dr_output(value: u64, witnesses: u16) -> DataRequestOutput {
    DataRequestOutput {
        pkh: pkh(2),
        value,
        witnesses,
        backup_witnesses: 0,
        commit_fee: 5,
        reveal_fee: 3,
        tally_fee: 2,
        time_lock: 0,
    }
}

fn vt_input(id: Hash, index: u32) -> Input {
    Input::ValueTransfer(ValueTransferInput { transaction_id: id, output_index: index })
}

fn dr_input(id: Hash, index: u32) -> Input {
    Input::DataRequest(DataRequestInput { transaction_id: id, output_index: index })
}

fn ptr(id: Hash, index: u32) -> OutputPointer {
    OutputPointer { transaction_id: id, output_index: index }
}

fn tx(inputs: Vec<Input>, outputs: Vec<Output>, id: Hash) -> Transaction {
    Transaction { version: 0, inputs, outputs, hash: id }
}

fn block_with(txns: Vec<Transaction>, checkpoint: u32, prev: Hash) -> Block {
    let mut block = Block {
        block_header: BlockHeader {
            version: 0,
            beacon: CheckpointBeacon { checkpoint, hash_prev_block: prev },
            hash_merkle_root: h(0),
        },
        txns,
        hash: h(77),
    };
    block.block_header.hash_merkle_root = merkle_tree_root(&block.txns);
    block
}

#[test]
fn test_block_reward() {
    // Satowits per wit
    let spw = 100_000_000;

    assert_eq!(block_reward(0), 500 * spw);
    assert_eq!(block_reward(1), 500 * spw);
    assert_eq!(block_reward(1_749_999), 500 * spw);
    assert_eq!(block_reward(1_750_000), 250 * spw);
    assert_eq!(block_reward(3_499_999), 250 * spw);
    assert_eq!(block_reward(3_500_000), 125 * spw);
    assert_eq!(block_reward(1_750_000 * 35), 1);
    assert_eq!(block_reward(1_750_000 * 36), 0);
    assert_eq!(block_reward(1_750_000 * 63), 0);
    assert_eq!(block_reward(1_750_000 * 64), 0);
    assert_eq!(block_reward(1_750_000 * 100), 0);
}

#[test]
fn block_reward_halves_each_period() {
    for epoch in [0u32, 5, 1_749_999, 1_750_000, 10_000_000, 61_249_999, 110_000_000] {
        assert_eq!(block_reward(epoch + HALVING_PERIOD), block_reward(epoch) / 2);
    }
}

#[test]
fn block_reward_never_grows() {
    let mut previous = block_reward(0);
    let mut epoch = 0u32;
    while epoch < 1_750_000 * 70 {
        let reward = block_reward(epoch);
        assert!(reward <= previous);
        previous = reward;
        epoch += 437_500;
    }
    assert_eq!(block_reward(u32::MAX), 0);
    assert_eq!(SATOWITS_PER_WIT, 100_000_000);
}

#[test]
fn poe_always_passes() {
    assert!(verify_poe_block());
    assert!(verify_poe_data_request());
}

#[test]
fn rewards_of_a_data_request() {
    let dr = dr_output(100, 4);
    assert_eq!(calculate_commit_reward(&dr), 20);
    assert_eq!(calculate_reveal_reward(&dr), 17);
    assert_eq!(calculate_dr_vt_reward(&dr), 15);
    assert_eq!(calculate_tally_change(&dr, 1), 51);
    assert_eq!(calculate_tally_change(&dr, 4), 0);
    // the reward share rounds down
    let odd = dr_output(103, 4);
    assert_eq!(calculate_commit_reward(&odd), 20);
}

#[test]
fn rewards_differ_by_fees_and_change_completes_rewards() {
    let dr = dr_output(1_000, 7);
    assert_eq!(calculate_commit_reward(&dr), calculate_reveal_reward(&dr) + dr.reveal_fee);
    assert_eq!(calculate_reveal_reward(&dr), calculate_dr_vt_reward(&dr) + dr.tally_fee);
    for n in 0..=7u64 {
        assert_eq!(
            calculate_tally_change(&dr, n) + n * calculate_reveal_reward(&dr),
            7 * calculate_reveal_reward(&dr)
        );
    }
}

#[test]
fn transaction_tags() {
    let pointer = vt_input(h(1), 0);
    assert_eq!(transaction_tag(&tx(vec![], vec![], h(2))), TransactionType::InvalidType);
    assert_eq!(transaction_tag(&tx(vec![], vec![vt(1)], h(2))), TransactionType::Mint);
    assert_eq!(transaction_tag(&tx(vec![pointer], vec![vt(1)], h(2))), TransactionType::ValueTransfer);
    assert_eq!(
        transaction_tag(&tx(vec![pointer], vec![vt(1), Output::DataRequest(dr_output(1, 1))], h(2))),
        TransactionType::DataRequest
    );
    let commit = Output::Commit(CommitOutput { commitment: h(3), value: 1 });
    let reveal = Output::Reveal(RevealOutput { pkh: pkh(1), value: 1 });
    let tally = Output::Tally(TallyOutput { pkh: pkh(1), value: 1 });
    assert_eq!(transaction_tag(&tx(vec![pointer], vec![commit], h(2))), TransactionType::Commit);
    assert_eq!(transaction_tag(&tx(vec![pointer], vec![reveal], h(2))), TransactionType::Reveal);
    // the last output decides
    assert_eq!(transaction_tag(&tx(vec![], vec![reveal, tally], h(2))), TransactionType::Tally);
}

#[test]
fn merkle_root_of_no_transaction_is_digest_of_nothing() {
    let root = merkle_tree_root(&[]);
    assert_eq!(root, Hash::SHA256(sha256(&[])));
    assert_eq!(
        root.to_string(),
        "e3b0c44298fc1c149afbf4c8996fb92427ae41e4649b934ca495991b7852b855"
    );
}

#[test]
fn merkle_root_of_transactions() {
    let a = [1u8; 32];
    let b = [2u8; 32];
    let c = [3u8; 32];
    let ta = tx(vec![], vec![], Hash::SHA256(a));
    let tb = tx(vec![], vec![], Hash::SHA256(b));
    let tc = tx(vec![], vec![], Hash::SHA256(c));
    assert_eq!(merkle_tree_root(&[ta.clone()]), Hash::SHA256(a));
    let ab = sha256(&[a, b].concat());
    assert_eq!(merkle_tree_root(&[ta.clone(), tb.clone()]), Hash::SHA256(ab));
    let abc = sha256(&[ab, c].concat());
    assert_eq!(merkle_tree_root(&[ta, tb, tc]), Hash::SHA256(abc));
}

#[test]
fn merkle_tree_check() {
    let mut block = block_with(vec![tx(vec![], vec![vt(3)], h(9))], 1, h(0));
    assert!(validate_merkle_tree(&block));
    block.block_header.hash_merkle_root = h(8);
    assert!(!validate_merkle_tree(&block));
}

#[test]
fn candidate_must_be_of_current_epoch() {
    let block = block_with(vec![], 10, h(0));
    assert_eq!(validate_candidate(&block, 10), Ok(()));
    assert_eq!(
        validate_candidate(&block, 11),
        Err(ValidationError::Block(BlockValidationError::CandidateFromDifferentEpoch))
    );
}

fn empty_pools() -> (UnspentOutputsPool, TransactionsPool, DataRequestPool) {
    (UnspentOutputsPool::new(), TransactionsPool { transactions: vec![] }, DataRequestPool::new())
}

fn block_error(block: &Block, current: u32, beacon: CheckpointBeacon, genesis: Hash) -> Option<BlockValidationError> {
    let (utxo, txns, drs) = empty_pools();
    match validate_block(block, current, beacon, genesis, &utxo, &txns, &drs) {
        Ok(_) => None,
        Err(ValidationError::Block(e)) => Some(e),
        Err(other) => panic!("unexpected error {:?}", other),
    }
}

#[test]
fn block_checks_in_order() {
    let genesis = h(100);
    let tip = CheckpointBeacon { checkpoint: 5, hash_prev_block: h(50) };
    let good = block_with(vec![tx(vec![], vec![vt(1)], h(9))], 6, h(50));
    assert_eq!(block_error(&good, 6, tip, genesis), None);
    // builds on the genesis block
    let on_genesis = block_with(vec![], 6, genesis);
    assert_eq!(block_error(&on_genesis, 6, tip, genesis), None);

    let mut bad_root = good.clone();
    bad_root.block_header.hash_merkle_root = h(1);
    bad_root.block_header.beacon.checkpoint = 99;
    assert_eq!(block_error(&bad_root, 6, tip, genesis), Some(BlockValidationError::NotValidMerkleTree));

    let future = block_with(vec![], 7, h(50));
    assert_eq!(block_error(&future, 6, tip, genesis), Some(BlockValidationError::BlockFromFuture));

    let old = block_with(vec![], 4, h(50));
    assert_eq!(block_error(&old, 6, tip, genesis), Some(BlockValidationError::BlockOlderThanTip));

    let unknown = block_with(vec![], 6, h(51));
    assert_eq!(block_error(&unknown, 6, tip, genesis), Some(BlockValidationError::PreviousHashNotKnown));
}

#[test]
fn error_messages() {
    assert_eq!(
        TransactionValidationError::NotValidTransaction.to_string(),
        "The transaction is not valid"
    );
    assert_eq!(BlockValidationError::NotValidPoe.to_string(), "The block has an invalid PoE");
    assert_eq!(
        BlockValidationError::NotValidMerkleTree.to_string(),
        "The block has an invalid Merkle Tree"
    );
    assert_eq!(BlockValidationError::BlockFromFuture.to_string(), "Block epoch from the future");
    assert_eq!(
        BlockValidationError::BlockOlderThanTip.to_string(),
        "Ignoring block older than highest block checkpoint"
    );
    assert_eq!(
        BlockValidationError::PreviousHashNotKnown.to_string(),
        "Ignoring block because previous hash is unknown"
    );
    assert_eq!(
        BlockValidationError::CandidateFromDifferentEpoch.to_string(),
        "Candidate epoch different from current epoch"
    );
}

#[test]
fn validate_transaction_accepts_and_keeps_the_set() {
    let mut utxo = UnspentOutputsPool::new();
    utxo.insert(ptr(h(1), 0), vt(10));
    assert!(validate_transaction(&tx(vec![], vec![], h(2)), &mut utxo));
    assert_eq!(utxo.get(&ptr(h(1), 0)), Some(vt(10)));
}

#[test]
fn validate_transactions_updates_the_ledger() {
    let mut utxo = UnspentOutputsPool::new();
    utxo.insert(ptr(h(1), 0), vt(10));
    utxo.insert(ptr(h(1), 1), vt(11));
    utxo.insert(ptr(h(1), 2), Output::DataRequest(dr_output(50, 2)));
    utxo.insert(ptr(h(1), 3), vt(13));
    let mut drs = DataRequestPool::new();
    let earlier = DataRequestEntry {
        pointer: ptr(h(40), 0),
        epoch: 1,
        block_hash: h(41),
        output: dr_output(1, 1),
    };
    let mut seed = Block {
        block_header: BlockHeader {
            version: 0,
            beacon: CheckpointBeacon { checkpoint: 1, hash_prev_block: h(0) },
            hash_merkle_root: h(0),
        },
        txns: vec![tx(vec![], vec![Output::DataRequest(dr_output(1, 1))], h(40))],
        hash: h(41),
    };
    seed.block_header.hash_merkle_root = merkle_tree_root(&seed.txns);
    drs.process_transaction(&seed.txns[0], 1, &h(41));
    assert_eq!(drs.entries(), &vec![earlier]);

    let new_dr = dr_output(60, 3);
    let t1 = tx(
        vec![vt_input(h(1), 0), dr_input(h(1), 2)],
        vec![vt(7), Output::DataRequest(new_dr)],
        h(20),
    );
    // spends an output of t1 at once, and t1's data request output later
    let t2 = tx(vec![vt_input(h(20), 0), dr_input(h(20), 1)], vec![vt(6)], h(21));
    let block = block_with(vec![t1.clone(), t2.clone()], 9, h(0));

    let bic = validate_transactions(&utxo, &TransactionsPool { transactions: vec![] }, &drs, &block)
        .unwrap();
    assert_eq!(bic.block, block);
    let out = &bic.utxo_set;
    assert_eq!(out.get(&ptr(h(1), 0)), None);
    assert_eq!(out.get(&ptr(h(1), 1)), Some(vt(11)));
    assert_eq!(out.get(&ptr(h(1), 2)), None);
    assert_eq!(out.get(&ptr(h(1), 3)), Some(vt(13)));
    assert_eq!(out.get(&ptr(h(20), 0)), None);
    assert_eq!(out.get(&ptr(h(20), 1)), None);
    assert_eq!(out.get(&ptr(h(21), 0)), Some(vt(6)));
    assert!(!out.contains_key(&ptr(h(21), 1)));
    assert_eq!(
        bic.data_request_pool.entries(),
        &vec![
            earlier,
            DataRequestEntry { pointer: ptr(h(20), 1), epoch: 9, block_hash: h(77), output: new_dr },
        ]
    );
    // the inputs are left as they were
    assert_eq!(utxo.get(&ptr(h(1), 0)), Some(vt(10)));
    assert_eq!(drs.entries().len(), 1);
}

#[test]
fn data_request_spent_before_creation_is_removed_at_end() {
    // a data request input that points at an output created later in the block
    let t1 = tx(vec![dr_input(h(31), 0)], vec![vt(1)], h(30));
    let t2 = tx(vec![], vec![vt(2)], h(31));
    let block = block_with(vec![t1, t2], 3, h(0));
    let (utxo, txns, drs) = empty_pools();
    let bic = validate_transactions(&utxo, &txns, &drs, &block).unwrap();
    assert_eq!(bic.utxo_set.get(&ptr(h(31), 0)), None);
    assert_eq!(bic.utxo_set.get(&ptr(h(30), 0)), Some(vt(1)));
}

#[test]
fn empty_block_changes_nothing() {
    let mut utxo = UnspentOutputsPool::new();
    utxo.insert(ptr(h(1), 0), vt(10));
    let (_, txns, drs) = empty_pools();
    let block = block_with(vec![], 3, h(0));
    let bic = validate_transactions(&utxo, &txns, &drs, &block).unwrap();
    assert_eq!(bic.utxo_set.get(&ptr(h(1), 0)), Some(vt(10)));
    assert!(bic.data_request_pool.entries().is_empty());
}

#[test]
fn validate_block_applies_transactions() {
    let mut utxo = UnspentOutputsPool::new();
    utxo.insert(ptr(h(1), 0), vt(10));
    let (_, txns, drs) = empty_pools();
    let block = block_with(vec![tx(vec![vt_input(h(1), 0)], vec![vt(9)], h(2))], 4, h(0));
    let beacon = CheckpointBeacon { checkpoint: 3, hash_prev_block: h(0) };
    let bic = validate_block(&block, 4, beacon, h(100), &utxo, &txns, &drs).unwrap();
    assert_eq!(bic.utxo_set.get(&ptr(h(1), 0)), None);
    assert_eq!(bic.utxo_set.get(&ptr(h(2), 0)), Some(vt(9)));
}

#[test]
fn block_transactions_leave_the_pending_pool() {
    let t1 = tx(vec![], vec![vt(1)], h(60));
    let t2 = tx(vec![], vec![vt(2)], h(61));
    let pending = tx(vec![], vec![vt(3)], h(62));
    let other = tx(vec![], vec![vt(4)], h(63));
    let block = block_with(vec![t1.clone(), t2.clone()], 3, h(0));
    let pool = TransactionsPool { transactions: vec![pending.clone(), t2.clone(), other.clone(), t1.clone()] };
    let (utxo, _, drs) = empty_pools();
    let bic = validate_transactions(&utxo, &pool, &drs, &block).unwrap();
    assert_eq!(bic.transactions_pool.transactions, vec![pending.clone(), other.clone()]);
    // the caller's pool is left as it was
    assert_eq!(pool.transactions.len(), 4);

    let beacon = CheckpointBeacon { checkpoint: 2, hash_prev_block: h(0) };
    let bic = validate_block(&block, 3, beacon, h(100), &utxo, &pool, &drs).unwrap();
    assert_eq!(bic.transactions_pool.transactions, vec![pending, other]);
}
