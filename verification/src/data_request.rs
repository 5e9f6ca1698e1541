use vstd::prelude::*;

use crate::chain::{
    DataRequestOutput, Epoch, Output, OutputPointer, Transaction, TransactionModel,
};

verus! {

/// A data request that a block included: where its output is found, the
/// epoch and the block that included it, and the request itself.
#[derive(Clone, Copy, Debug, PartialEq, Eq)]
pub struct DataRequestEntry {
    pub pointer: OutputPointer,
    pub epoch: Epoch,
    pub block_hash: crate::chain::Hash,
    pub output: DataRequestOutput,
}

/// The entries that the first `outputs.len()` outputs of the transaction
/// `id` add: one for each data request output, in order.
pub open spec fn data_request_entries(
    outputs: Seq<Output>,
    id: crate::chain::Hash,
    epoch: Epoch,
    block_hash: crate::chain::Hash,
) -> Seq<DataRequestEntry>
    decreases outputs.len(),
{
    if outputs.len() == 0 {
        Seq::empty()
    } else {
        let before = data_request_entries(outputs.drop_last(), id, epoch, block_hash);
        match outputs.last() {
            Output::DataRequest(dr) => before.push(
                DataRequestEntry {
                    pointer: OutputPointer {
                        transaction_id: id,
                        output_index: (outputs.len() - 1) as u32,
                    },
                    epoch,
                    block_hash,
                    output: dr,
                },
            ),
            _ => before,
        }
    }
}

/// The entries that the transactions `txns` add, in order.
pub open spec fn block_data_requests(
    txns: Seq<TransactionModel>,
    epoch: Epoch,
    block_hash: crate::chain::Hash,
) -> Seq<DataRequestEntry>
    decreases txns.len(),
{
    if txns.len() == 0 {
        Seq::empty()
    } else {
        block_data_requests(txns.drop_last(), epoch, block_hash) + data_request_entries(
            txns.last().outputs,
            txns.last().hash,
            epoch,
            block_hash,
        )
    }
}

/// The data requests that blocks have included, in the order they came.
pub struct DataRequestPool {
    data_requests: Vec<DataRequestEntry>,
}

impl View for DataRequestPool {
    type V = Seq<DataRequestEntry>;

    closed spec fn view(&self) -> Seq<DataRequestEntry> {
        self.data_requests@
    }
}

impl DataRequestPool {
    /// An empty pool.
    pub fn new() -> (r: DataRequestPool)
        ensures
            r@ == Seq::<DataRequestEntry>::empty(),
    {
        DataRequestPool { data_requests: Vec::new() }
    }

    /// The data requests in the pool, in order.
    pub fn entries(&self) -> (r: &Vec<DataRequestEntry>)
        ensures
            r@ == self@,
    {
        &self.data_requests
    }

    /// Records each data request that `transaction` makes, with the epoch and
    /// the block that include it.
    pub fn process_transaction(
        &mut self,
        transaction: &Transaction,
        epoch: Epoch,
        block_hash: &crate::chain::Hash,
    )
        ensures
            final(self)@ == old(self)@ + data_request_entries(
                transaction.outputs@,
                transaction.hash,
                epoch,
                *block_hash,
            ),
    {
        let tx_hash = transaction.hash();
        let mut index: usize = 0;
        while index < transaction.outputs.len()
            invariant
                index <= transaction.outputs.len(),
                tx_hash == transaction.hash,
                self@ == old(self)@ + data_request_entries(
                    transaction.outputs@.take(index as int),
                    tx_hash,
                    epoch,
                    *block_hash,
                ),
            decreases transaction.outputs.len() - index,
        {
            proof {
                assert(transaction.outputs@.take(index + 1).drop_last() =~= transaction.outputs@.take(
                    index as int,
                ));
            }
            match &transaction.outputs[index] {
                Output::DataRequest(dr) => {
                    let entry = DataRequestEntry {
                        pointer: OutputPointer {
                            transaction_id: tx_hash,
                            output_index: index as u32,
                        },
                        epoch,
                        block_hash: *block_hash,
                        output: *dr,
                    };
                    self.data_requests.push(entry);
                },
                _ => {},
            }
            proof {
                assert(self@ =~= old(self)@ + data_request_entries(
                    transaction.outputs@.take(index + 1),
                    tx_hash,
                    epoch,
                    *block_hash,
                ));
            }
            index = index + 1;
        }
        proof {
            assert(transaction.outputs@.take(index as int) =~= transaction.outputs@);
        }
    }

    /// A copy of the pool.
    pub fn duplicate(&self) -> (r: DataRequestPool)
        ensures
            r@ == self@,
    {
        DataRequestPool { data_requests: crate::chain::copy_vec(&self.data_requests) }
    }
}

} // verus!
