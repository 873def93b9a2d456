//! Hashes of headers.

use stateless::hash::b256_eq;
use stateless::header::Header;

fn bytes32(text: &str) -> [u8; 32] {
    let mut bytes = [0u8; 32];
    for i in 0..32 {
        bytes[i] = u8::from_str_radix(&text[2 * i..2 * i + 2], 16).unwrap();
    }
    bytes
}

/// The header of the Ethereum main network's first block.
fn mainnet_genesis() -> Header {
    let empty_trie = bytes32("56e81f171bcc55a6ff8345e692c0f86e5b48e01b996cadc001622fb5e363b421");
    let mut difficulty = [0u8; 32];
    difficulty[27] = 4;
    Header {
        parent_hash: [0; 32],
        ommers_hash: bytes32("1dcc4de8dec75d7aab85b567b6ccd41ad312451b948a7413f0a142fd40d49347"),
        beneficiary: [0; 20],
        state_root: bytes32("d7f8974fb5ac78d9ac099b9ad5018bedc2ce0a72dad1827a1709da30580f0544"),
        transactions_root: empty_trie,
        receipts_root: empty_trie,
        logs_bloom: [0; 256],
        difficulty,
        number: 0,
        gas_limit: 5000,
        gas_used: 0,
        timestamp: 0,
        extra_data: bytes32("11bbe8db4e347b4e8c937c1c8370e4b5ed33adb3db69cbdb7a38e1e50b1b82fa")
            .to_vec(),
        mix_hash: [0; 32],
        nonce: [0, 0, 0, 0, 0, 0, 0, 0x42],
        base_fee_per_gas: None,
        withdrawals_root: None,
        blob_gas_used: None,
        excess_blob_gas: None,
        parent_beacon_block_root: None,
        requests_hash: None,
    }
}

#[test]
fn genesis_has_its_well_known_hash() {
    let expected = bytes32("d4e56740f876aef8c010b86a40d5f56745a118d0906a34e69aec8c0db1cb8fa3");
    assert_eq!(mainnet_genesis().hash_slow(), expected);
}

#[test]
fn every_field_counts_for_the_hash() {
    let base = mainnet_genesis().hash_slow();
    let mut variants: Vec<Header> = Vec::new();
    for i in 0..21 {
        let mut h = mainnet_genesis();
        match i {
            0 => h.parent_hash[5] = 1,
            1 => h.ommers_hash[5] ^= 1,
            2 => h.beneficiary[5] = 1,
            3 => h.state_root[5] ^= 1,
            4 => h.transactions_root[5] ^= 1,
            5 => h.receipts_root[5] ^= 1,
            6 => h.logs_bloom[200] = 1,
            7 => h.difficulty[31] = 1,
            8 => h.number = 1,
            9 => h.gas_limit = 5001,
            10 => h.gas_used = 1,
            11 => h.timestamp = 1,
            12 => h.extra_data.push(0),
            13 => h.mix_hash[5] = 1,
            14 => h.nonce[5] = 1,
            15 => h.base_fee_per_gas = Some(7),
            16 => h.withdrawals_root = Some([1; 32]),
            17 => h.blob_gas_used = Some(1),
            18 => h.excess_blob_gas = Some(2),
            19 => h.parent_beacon_block_root = Some([2; 32]),
            _ => h.requests_hash = Some([3; 32]),
        }
        variants.push(h);
    }
    let hashes: Vec<[u8; 32]> = variants.into_iter().map(|h| h.hash_slow()).collect();
    for (i, hash) in hashes.iter().enumerate() {
        assert_ne!(*hash, base, "field {}", i);
        for other in &hashes[i + 1..] {
            assert_ne!(hash, other);
        }
    }
}

#[test]
fn hash_agrees_with_the_consensus_crate() {
    let mut header = mainnet_genesis();
    header.number = u64::MAX;
    header.base_fee_per_gas = Some(1_000_000_007);
    header.withdrawals_root = Some([9; 32]);
    header.blob_gas_used = Some(0);
    header.excess_blob_gas = Some(131072);
    header.parent_beacon_block_root = Some([8; 32]);
    header.requests_hash = Some([7; 32]);
    let wire = alloy_consensus::Header {
        ommers_hash: header.ommers_hash.into(),
        state_root: header.state_root.into(),
        transactions_root: header.transactions_root.into(),
        receipts_root: header.receipts_root.into(),
        difficulty: alloy_primitives::U256::from(0x4_0000_0000u64),
        number: u64::MAX,
        gas_limit: 5000,
        extra_data: header.extra_data.clone().into(),
        nonce: header.nonce.into(),
        base_fee_per_gas: Some(1_000_000_007),
        withdrawals_root: Some([9; 32].into()),
        blob_gas_used: Some(0),
        excess_blob_gas: Some(131072),
        parent_beacon_block_root: Some([8; 32].into()),
        requests_hash: Some([7; 32].into()),
        ..Default::default()
    };
    assert_eq!(header.hash_slow(), wire.hash_slow().0);
}

#[test]
fn hashes_are_compared_bytewise() {
    let a = [7u8; 32];
    let mut b = a;
    assert!(b256_eq(&a, &b));
    b[31] = 8;
    assert!(!b256_eq(&a, &b));
    b = a;
    b[0] = 8;
    assert!(!b256_eq(&a, &b));
}
