# blockchain

A small blockchain library verified with Verus.

- `src/utils/serializer.rs`: the byte format (bincode 1.x, default
  configuration) of integers and strings, reading them back, and the
  SHA3-256 hash text (rust-crypto) that seals transactions and blocks.
- `src/transactions/`: transaction inputs and outputs, coinbase and
  payment transactions, whose id is the hash of their bytes.
- `src/blocks/`: blocks sealed by their hash, reading a block back from its
  bytes, and the chain of linked blocks with its invariant.
- `src/storage/records.rs`: the keys and byte records a block store writes
  and reads.
- `app/lib.rs`: the sled database that holds those records, and the logging
  of a chain.
