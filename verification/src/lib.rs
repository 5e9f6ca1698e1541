//! Block and transaction validation rules of a Witnet node, with the
//! chain data model they operate on and the wallet's pagination rule.

pub mod chain;
pub mod utxo;
pub mod data_request;
pub mod merkle;
pub mod validations;
pub mod laws;
pub mod transaction;
pub mod types;
pub mod wallet;
