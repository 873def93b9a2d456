//! Block headers.

use crate::codec::encode_header;
use crate::codec::header_of_rlp;
use crate::codec::keccak256;
use crate::codec::keccak256_of;
use crate::codec::rlp_of_header;
use crate::hash::B256;
use vstd::prelude::*;

verus! {

/// An Ethereum block header.
#[derive(Clone, Debug, PartialEq, Eq)]
pub struct Header {
    /// Hash of the parent's header.
    pub parent_hash: B256,
    /// Hash of the ommers list.
    pub ommers_hash: B256,
    /// Address that collects the fees.
    pub beneficiary: [u8; 20],
    /// Root of the state trie after the block.
    pub state_root: B256,
    /// Root of the transactions trie.
    pub transactions_root: B256,
    /// Root of the receipts trie.
    pub receipts_root: B256,
    /// Bloom filter over the logs.
    pub logs_bloom: [u8; 256],
    /// Difficulty, most significant byte first.
    pub difficulty: [u8; 32],
    /// Number of ancestors of the block.
    pub number: u64,
    /// Gas limit.
    pub gas_limit: u64,
    /// Gas used.
    pub gas_used: u64,
    /// Unix time of the block.
    pub timestamp: u64,
    /// Free-form bytes.
    pub extra_data: Vec<u8>,
    /// Mix hash, or the randomness of the beacon chain.
    pub mix_hash: B256,
    /// Proof-of-work nonce.
    pub nonce: [u8; 8],
    /// Base fee per gas (London).
    pub base_fee_per_gas: Option<u64>,
    /// Root of the withdrawals trie (Shanghai).
    pub withdrawals_root: Option<B256>,
    /// Blob gas used (Cancun).
    pub blob_gas_used: Option<u64>,
    /// Excess blob gas (Cancun).
    pub excess_blob_gas: Option<u64>,
    /// Root of the parent beacon block (Cancun).
    pub parent_beacon_block_root: Option<B256>,
    /// Hash of the execution requests (Prague).
    pub requests_hash: Option<B256>,
}

/// The value of a [`Header`].
pub struct HeaderView {
    pub parent_hash: B256,
    pub ommers_hash: B256,
    pub beneficiary: [u8; 20],
    pub state_root: B256,
    pub transactions_root: B256,
    pub receipts_root: B256,
    pub logs_bloom: [u8; 256],
    pub difficulty: [u8; 32],
    pub number: u64,
    pub gas_limit: u64,
    pub gas_used: u64,
    pub timestamp: u64,
    pub extra_data: Seq<u8>,
    pub mix_hash: B256,
    pub nonce: [u8; 8],
    pub base_fee_per_gas: Option<u64>,
    pub withdrawals_root: Option<B256>,
    pub blob_gas_used: Option<u64>,
    pub excess_blob_gas: Option<u64>,
    pub parent_beacon_block_root: Option<B256>,
    pub requests_hash: Option<B256>,
}

impl View for Header {
    type V = HeaderView;

    open spec fn view(&self) -> HeaderView {
        HeaderView {
            parent_hash: self.parent_hash,
            ommers_hash: self.ommers_hash,
            beneficiary: self.beneficiary,
            state_root: self.state_root,
            transactions_root: self.transactions_root,
            receipts_root: self.receipts_root,
            logs_bloom: self.logs_bloom,
            difficulty: self.difficulty,
            number: self.number,
            gas_limit: self.gas_limit,
            gas_used: self.gas_used,
            timestamp: self.timestamp,
            extra_data: self.extra_data@,
            mix_hash: self.mix_hash,
            nonce: self.nonce,
            base_fee_per_gas: self.base_fee_per_gas,
            withdrawals_root: self.withdrawals_root,
            blob_gas_used: self.blob_gas_used,
            excess_blob_gas: self.excess_blob_gas,
            parent_beacon_block_root: self.parent_beacon_block_root,
            requests_hash: self.requests_hash,
        }
    }
}

impl HeaderView {
    /// The hash that identifies a block: Keccak-256 of its header's RLP encoding.
    pub open spec fn block_hash(self) -> B256 {
        crate::codec::keccak256_of(crate::codec::rlp_of_header(self))
    }
}

impl Header {
    /// Hashes the header: Keccak-256 of its RLP encoding.
    pub fn hash_slow(&self) -> (hash: B256)
        ensures
            hash == self@.block_hash(),
            hash == keccak256_of(rlp_of_header(self@)),
    {
        let encoded = encode_header(self);
        keccak256(&encoded)
    }
}

/// A header together with its hash.
#[derive(Clone, Debug, PartialEq, Eq)]
pub struct SealedHeader {
    /// The header.
    pub header: Header,
    /// Its hash.
    pub hash: B256,
}

/// The value of a [`SealedHeader`].
pub struct SealedHeaderView {
    pub header: HeaderView,
    pub hash: B256,
}

impl View for SealedHeader {
    type V = SealedHeaderView;

    open spec fn view(&self) -> SealedHeaderView {
        SealedHeaderView { header: self.header@, hash: self.hash }
    }
}

/// The values of a list of sealed headers.
pub open spec fn sealed_views(headers: Seq<SealedHeader>) -> Seq<SealedHeaderView> {
    headers.map_values(|h: SealedHeader| h@)
}

impl SealedHeader {
    /// Attaches a hash to a header; the hash is taken as given.
    pub fn new(header: Header, hash: B256) -> (sealed: SealedHeader)
        ensures
            sealed.header == header,
            sealed.hash == hash,
    {
        SealedHeader { header, hash }
    }
}

/// The value of a header has every field of the header as it is.
pub proof fn law_header_value(header: Header)
    ensures
        header@.parent_hash == header.parent_hash,
        header@.ommers_hash == header.ommers_hash,
        header@.beneficiary == header.beneficiary,
        header@.state_root == header.state_root,
        header@.transactions_root == header.transactions_root,
        header@.receipts_root == header.receipts_root,
        header@.logs_bloom == header.logs_bloom,
        header@.difficulty == header.difficulty,
        header@.number == header.number,
        header@.gas_limit == header.gas_limit,
        header@.gas_used == header.gas_used,
        header@.timestamp == header.timestamp,
        header@.extra_data == header.extra_data@,
        header@.mix_hash == header.mix_hash,
        header@.nonce == header.nonce,
        header@.base_fee_per_gas == header.base_fee_per_gas,
        header@.withdrawals_root == header.withdrawals_root,
        header@.blob_gas_used == header.blob_gas_used,
        header@.excess_blob_gas == header.excess_blob_gas,
        header@.parent_beacon_block_root == header.parent_beacon_block_root,
        header@.requests_hash == header.requests_hash,
{
}

/// The hash of a header is the Keccak-256 digest of the RLP encoding of all its fields, as they
/// are. So a header that bytes decode to, and that encodes to these bytes, hashes to their digest.
pub proof fn law_hash_is_digest_of_encoding(header: Header, hash: B256)
    requires
        call_ensures(Header::hash_slow, (&header,), hash),
    ensures
        hash == keccak256_of(
            rlp_of_header(
                HeaderView {
                    parent_hash: header.parent_hash,
                    ommers_hash: header.ommers_hash,
                    beneficiary: header.beneficiary,
                    state_root: header.state_root,
                    transactions_root: header.transactions_root,
                    receipts_root: header.receipts_root,
                    logs_bloom: header.logs_bloom,
                    difficulty: header.difficulty,
                    number: header.number,
                    gas_limit: header.gas_limit,
                    gas_used: header.gas_used,
                    timestamp: header.timestamp,
                    extra_data: header.extra_data@,
                    mix_hash: header.mix_hash,
                    nonce: header.nonce,
                    base_fee_per_gas: header.base_fee_per_gas,
                    withdrawals_root: header.withdrawals_root,
                    blob_gas_used: header.blob_gas_used,
                    excess_blob_gas: header.excess_blob_gas,
                    parent_beacon_block_root: header.parent_beacon_block_root,
                    requests_hash: header.requests_hash,
                },
            ),
        ),
        forall|bytes: Seq<u8>| #[trigger]
            header_of_rlp(bytes) == Some(header@) && rlp_of_header(header@) == bytes ==> hash
                == keccak256_of(bytes),
{
}

/// Sealing keeps the header and the hash.
pub proof fn law_sealing_keeps(header: Header, hash: B256, sealed: SealedHeader)
    requires
        call_ensures(SealedHeader::new, (header, hash), sealed),
    ensures
        sealed.header == header,
        sealed.hash == hash,
        sealed@.header == header@,
        sealed@.hash == hash,
{
}

} // verus!
