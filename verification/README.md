# witnet_validations

The block and transaction validation rules of a Witnet node, written in Verus
and proved against their contracts.

- `src/chain.rs`: the chain's data (hashes, inputs, outputs, transactions,
  blocks) and the hexadecimal form of a hash.
- `src/utxo.rs`: the set of unspent outputs, a map from output pointers to
  outputs.
- `src/data_request.rs`: the pool of data requests that blocks included.
- `src/merkle.rs`: the Merkle tree over transaction identifiers; SHA-256 comes
  from the `sha2` crate.
- `src/validations.rs`: validation of transactions, blocks and block
  candidates, transaction tags, block and data request rewards.
- `src/laws.rs`: properties of these rules that span calls, proved.
- `src/types.rs`, `src/transaction.rs`: the protocol's messages.
- `src/wallet.rs`: the wallet's pagination of pending transactions.
- `app/`: actors and handlers (actix), serialisable requests (serde), and
  error types for `failure`.
