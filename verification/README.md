# stateless

Stateless validation of Ethereum blocks, verified with Verus.

A block is validated against a witness: the RLP-encoded headers of its most recent ancestors, and
the trie nodes and bytecode that its execution touches. The library decides; consensus rules, the
EVM and the state trie belong to the caller. A validation is a chain of stages. Each stage is a type
of its own that says what is due, takes the reply, and leads to the next stage or to an error.

## Layout

- `src/hash.rs`, `src/header.rs`: hashes and headers.
- `src/codec.rs`: Keccak-256 and RLP, by the alloy crates.
- `src/order.rs`: headers in the order of their numbers, by a stable sort.
- `src/ancestors.rs`: from a witness to the parent and the hashes that BLOCKHASH can look up.
- `src/consensus.rs`: how every validation begins, and the checks that precede execution.
- `src/validation.rs`: execution of the block at once, one state root.
- `src/pair_roots.rs`: execution transaction by transaction, a state root after each.
- `src/error.rs`, `src/message.rs`: errors and their texts.
- `app/`: runs the stages with a node's consensus rules, EVM and trie.

Every function states what it returns for every input. The proof functions whose names begin with
`law_` state what holds of the library as a whole: the order of a witness does not matter, a witness
is accepted exactly if its headers can be arranged as a chain up to the block, the first failure
decides a validation, an accepted block has the state root in its header, and roots between
transactions are handed out only where nothing happens after the last. A block with withdrawals or
execution requests that is accepted as a whole is accepted transaction by transaction too, without
roots.

## What is taken on trust

The three functions in `src/codec.rs` that call `alloy_primitives::keccak256`,
`alloy_rlp::decode_exact` and `alloy_rlp::encode`. Their results are given names
(`keccak256_of`, `header_of_rlp`, `rlp_of_header`); nothing more is claimed of them than that they
depend on their arguments alone.
