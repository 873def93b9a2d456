//! Stateless validation of Ethereum blocks.
//!
//! A block is validated against a witness: the encoded headers of its most recent ancestors, and
//! the trie nodes and bytecode that its execution touches. This crate holds the decisions: which
//! witnesses form an ancestor chain, in which order the checks run, what a failed check reports,
//! and which state roots are handed out. Consensus rules, the EVM and the state trie are the
//! caller's; each stage of a validation says which of them is due and takes its reply.

pub mod ancestors;
pub mod codec;
pub mod consensus;
pub mod error;
pub mod hash;
pub mod header;
pub mod message;
pub mod order;
pub mod pair_roots;
pub mod validation;
