//! Hashing and RLP: the calls into the alloy crates.

use crate::hash::B256;
use crate::header::Header;
use crate::header::HeaderView;
use alloy_consensus::Header as WireHeader;
use alloy_primitives::FixedBytes;
use alloy_primitives::U256;
use vstd::prelude::*;

verus! {

/// The Keccak-256 digest of `bytes`.
pub uninterp spec fn keccak256_of(bytes: Seq<u8>) -> B256;

/// The header of which `bytes` is the RLP encoding with nothing left over; `None` where it is the
/// encoding of no header.
pub uninterp spec fn header_of_rlp(bytes: Seq<u8>) -> Option<HeaderView>;

/// The RLP encoding of a header.
pub uninterp spec fn rlp_of_header(header: HeaderView) -> Seq<u8>;

/// The reason why bytes do not decode. Nothing here looks inside it.
#[verifier::external_type_specification]
#[verifier::external_body]
pub struct ExRlpError(alloy_rlp::Error);

/// Calls `alloy_primitives::keccak256`, a pure function of its bytes.
#[verifier::external_body]
pub(crate) fn keccak256(bytes: &Vec<u8>) -> (hash: B256)
    ensures
        hash == keccak256_of(bytes@),
{
    alloy_primitives::keccak256(bytes).into()
}

/// Calls `alloy_rlp::decode_exact` for `alloy_consensus::Header`, and copies the decoded fields.
/// The call succeeds or fails by the bytes alone, and so does the header that it gives.
#[verifier::external_body]
pub(crate) fn decode_header(bytes: &Vec<u8>) -> (decoded: Result<Header, alloy_rlp::Error>)
    ensures
        match decoded {
            Ok(header) => header_of_rlp(bytes@) == Some(header@),
            Err(_) => header_of_rlp(bytes@) is None,
        },
{
    let WireHeader {
        parent_hash, ommers_hash, beneficiary, state_root, transactions_root, receipts_root,
        logs_bloom, difficulty, number, gas_limit, gas_used, timestamp, extra_data, mix_hash,
        nonce, base_fee_per_gas, withdrawals_root, blob_gas_used, excess_blob_gas,
        parent_beacon_block_root, requests_hash,
    } = alloy_rlp::decode_exact(bytes)?;
    Ok(Header { parent_hash: parent_hash.0, ommers_hash: ommers_hash.0,
        beneficiary: beneficiary.into(), state_root: state_root.0, transactions_root: transactions_root.0,
        receipts_root: receipts_root.0, logs_bloom: logs_bloom.into(), difficulty: difficulty.to_be_bytes(),
        number, gas_limit, gas_used, timestamp, extra_data: extra_data.into(), mix_hash: mix_hash.0,
        nonce: nonce.0, base_fee_per_gas, withdrawals_root: withdrawals_root.map(Into::into),
        blob_gas_used, excess_blob_gas, parent_beacon_block_root: parent_beacon_block_root.map(Into::into),
        requests_hash: requests_hash.map(Into::into) })
}

/// Copies the fields into an `alloy_consensus::Header` and calls `alloy_rlp::encode` on it. The
/// bytes are a pure function of the fields.
#[verifier::external_body]
pub(crate) fn encode_header(header: &Header) -> (encoded: Vec<u8>)
    ensures
        encoded@ == rlp_of_header(header@),
{
    let Header {
        parent_hash, ommers_hash, beneficiary, state_root, transactions_root, receipts_root,
        logs_bloom, difficulty, number, gas_limit, gas_used, timestamp, extra_data, mix_hash,
        nonce, base_fee_per_gas, withdrawals_root, blob_gas_used, excess_blob_gas,
        parent_beacon_block_root, requests_hash,
    } = header.clone();
    alloy_rlp::encode(WireHeader { parent_hash: FixedBytes(parent_hash), ommers_hash: FixedBytes(ommers_hash),
        beneficiary: beneficiary.into(), state_root: FixedBytes(state_root), transactions_root: FixedBytes(transactions_root),
        receipts_root: FixedBytes(receipts_root), logs_bloom: logs_bloom.into(), difficulty: U256::from_be_bytes(difficulty),
        number, gas_limit, gas_used, timestamp, extra_data: extra_data.into(), mix_hash: FixedBytes(mix_hash),
        nonce: FixedBytes(nonce), base_fee_per_gas, withdrawals_root: withdrawals_root.map(Into::into),
        blob_gas_used, excess_blob_gas, parent_beacon_block_root: parent_beacon_block_root.map(Into::into),
        requests_hash: requests_hash.map(Into::into) })
}

} // verus!
