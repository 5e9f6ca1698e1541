use vstd::prelude::*;

verus! {

/// A transaction, told apart by its kind.
#[derive(Clone, Debug, PartialEq, Eq)]
pub enum Transaction {
    Commit(crate::chain::Transaction),
    ValueTransfer(crate::chain::Transaction),
    DataRequest(crate::chain::Transaction),
    Reveal(crate::chain::Transaction),
    Tally(crate::chain::Transaction),
    Mint(crate::chain::Transaction),
}

} // verus!
