use witnet_validations::chain::{
    DataRequestOutput, Output, OutputPointer, PublicKeyHash, Transaction, ValueTransferOutput,
};
use witnet_validations::data_request::{DataRequestEntry, DataRequestPool};
use witnet_validations::utxo::UnspentOutputsPool;

type Hash = witnet_validations::chain::Hash;

fn h(n: u8) -> Hash {
    Hash::SHA256([n; 32])
}

fn vt(value: u64) -> Output {
    Output::ValueTransfer(ValueTransferOutput { pkh: PublicKeyHash { hash: [0; 20] }, value })
}

fn ptr(id: Hash, index: u32) -> OutputPointer {
    OutputPointer { transaction_id: id, output_index: index }
}

#[test]
fn hash_equality_and_hex() {
    let mut bytes = [0u8; 32];
    bytes[0] = 0xab;
    bytes[31] = 0x0f;
    let a = Hash::SHA256(bytes);
    assert!(a.same_as(&Hash::SHA256(bytes)));
    assert!(!a.same_as(&h(0)));
    assert_eq!(a, Hash::SHA256(bytes));
    assert_ne!(a, h(0));
    assert_eq!(
        a.to_string(),
        "ab0000000000000000000000000000000000000000000000000000000000000f"
    );
    assert!(ptr(a, 1).same_as(&ptr(a, 1)));
    assert!(!ptr(a, 1).same_as(&ptr(a, 2)));
    assert!(!ptr(a, 1).same_as(&ptr(h(0), 1)));
}

#[test]
fn unspent_outputs_insert_get_remove() {
    let mut utxo = UnspentOutputsPool::new();
    assert_eq!(utxo.get(&ptr(h(1), 0)), None);
    assert_eq!(utxo.insert(ptr(h(1), 0), vt(1)), None);
    assert_eq!(utxo.insert(ptr(h(1), 1), vt(2)), None);
    assert_eq!(utxo.insert(ptr(h(1), 0), vt(3)), Some(vt(1)));
    assert_eq!(utxo.get(&ptr(h(1), 0)), Some(vt(3)));
    assert!(utxo.contains_key(&ptr(h(1), 1)));
    let copy = utxo.duplicate();
    assert_eq!(utxo.remove(&ptr(h(1), 1)), Some(vt(2)));
    assert_eq!(utxo.remove(&ptr(h(1), 1)), None);
    assert!(!utxo.contains_key(&ptr(h(1), 1)));
    assert_eq!(utxo.get(&ptr(h(1), 0)), Some(vt(3)));
    assert_eq!(copy.get(&ptr(h(1), 1)), Some(vt(2)));
}

#[test]
fn data_request_pool_records_data_request_outputs() {
    let dr = DataRequestOutput {
        pkh: PublicKeyHash { hash: [5; 20] },
        value: 10,
        witnesses: 2,
        backup_witnesses: 1,
        commit_fee: 1,
        reveal_fee: 1,
        tally_fee: 1,
        time_lock: 0,
    };
    let tx = Transaction {
        version: 1,
        inputs: vec![],
        outputs: vec![vt(1), Output::DataRequest(dr), vt(2), Output::DataRequest(dr)],
        hash: h(7),
    };
    let mut pool = DataRequestPool::new();
    pool.process_transaction(&tx, 12, &h(8));
    let entry = |i| DataRequestEntry { pointer: ptr(h(7), i), epoch: 12, block_hash: h(8), output: dr };
    assert_eq!(pool.entries(), &vec![entry(1), entry(3)]);
    let copy = pool.duplicate();
    assert_eq!(copy.entries(), pool.entries());
    let dup = tx.duplicate();
    assert_eq!(dup, tx);
}
