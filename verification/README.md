# rootsmith

A service that stores incoming key-value records per namespace, folds each
namespace's records of an epoch into a cryptographic root (a Merkle tree, a
sparse Merkle tree, or simpler XOR accumulators), registers the root as a
batch commitment, makes inclusion proofs for the committed keys, and later
prunes and archives old data.

The library in `src/` is written in Verus and verified. Its functions carry
contracts, except a few whose result nothing can promise (the readings of
the system clock) and constructors of types with a single value.

- `parser` decodes the protobuf wire format of an incoming record.
- `crypto` and `accumulator` hold the accumulators. The SHA-256 Merkle tree
  comes from `rs_merkle`, the sparse Merkle tree from `monotree`, and the
  hashes from `rs_merkle`'s SHA-256 and `blake3`; `crypto/hashing.rs` and
  `crypto/tree_store.rs` state what the library relies on of them.
- `storage` is the record store; `commit` the commit step of a namespace.
- `app`, `app_v2` and `rootsmith` are the orchestrators. `rootsmith` splits
  the service into steps (store a record, run a commit cycle, make proofs,
  prune, archive), each a function of the state and the time.
- `commitment_registry`, `proof_registry`, `proof_delivery`, `archive`,
  `archiver` and `downstream` are the places results go.

`app/` is the executable: it reads the settings file, and runs the steps
of `rootsmith` on timers. `tests/` holds the tests.
