//! The ancestors that a witness gives.

use stateless::ancestors::ancestry;
use stateless::ancestors::compute_ancestor_hashes;
use stateless::ancestors::decode_ancestor_headers;
use stateless::ancestors::witnessed_ancestry;
use stateless::ancestors::ExecutionWitness;
use stateless::ancestors::BLOCKHASH_ANCESTOR_LIMIT;
use stateless::error::StatelessValidationError;
use stateless::header::Header;
use stateless::header::SealedHeader;
use stateless::order::sort_by_number;
use std::collections::BTreeMap;

type Failure = StatelessValidationError<u8>;

fn wire_header(number: u64, parent_hash: [u8; 32]) -> alloy_consensus::Header {
    alloy_consensus::Header {
        number,
        parent_hash: parent_hash.into(),
        state_root: [number as u8; 32].into(),
        timestamp: 12 * number,
        ..Default::default()
    }
}

fn header(number: u64, parent_hash: [u8; 32]) -> Header {
    let wire = wire_header(number, parent_hash);
    Header {
        parent_hash,
        ommers_hash: wire.ommers_hash.0,
        beneficiary: [0; 20],
        state_root: [number as u8; 32],
        transactions_root: wire.transactions_root.0,
        receipts_root: wire.receipts_root.0,
        logs_bloom: [0; 256],
        difficulty: [0; 32],
        number,
        gas_limit: 0,
        gas_used: 0,
        timestamp: 12 * number,
        extra_data: Vec::new(),
        mix_hash: [0; 32],
        nonce: [0; 8],
        base_fee_per_gas: None,
        withdrawals_root: None,
        blob_gas_used: None,
        excess_blob_gas: None,
        parent_beacon_block_root: None,
        requests_hash: None,
    }
}

fn sealed(number: u64, hash: u8, parent_hash: u8) -> SealedHeader {
    SealedHeader::new(header(number, [parent_hash; 32]), [hash; 32])
}

/// A chain of encoded headers from `first` on, and the hash of the last.
fn encoded_chain(first: u64, count: u64) -> (Vec<Vec<u8>>, Vec<[u8; 32]>) {
    let mut encoded = Vec::new();
    let mut hashes = Vec::new();
    let mut parent_hash = [0xee; 32];
    for number in first..first + count {
        let wire = wire_header(number, parent_hash);
        encoded.push(alloy_rlp::encode(&wire));
        parent_hash = wire.hash_slow().0;
        hashes.push(parent_hash);
    }
    (encoded, hashes)
}

#[test]
fn hashes_are_collected_by_number() {
    let ancestors = vec![sealed(7, 70, 60), sealed(8, 80, 70), sealed(9, 90, 80)];
    let found = compute_ancestor_hashes::<u8>(&header(10, [90; 32]), &ancestors).unwrap();
    let expected: BTreeMap<u64, [u8; 32]> =
        [(7, [70; 32]), (8, [80; 32]), (9, [90; 32])].into_iter().collect();
    assert_eq!(found, expected);
}

#[test]
fn no_ancestors_have_no_hashes() {
    let found = compute_ancestor_hashes::<u8>(&header(10, [90; 32]), &Vec::new()).unwrap();
    assert!(found.is_empty());
}

#[test]
fn a_wrong_parent_hash_breaks_the_chain() {
    let ancestors = vec![sealed(8, 80, 70), sealed(9, 90, 81)];
    let found = compute_ancestor_hashes::<u8>(&header(10, [90; 32]), &ancestors);
    assert_eq!(found, Err(Failure::InvalidAncestorChain));
    let ancestors = vec![sealed(8, 80, 70), sealed(9, 90, 80)];
    let found = compute_ancestor_hashes::<u8>(&header(10, [91; 32]), &ancestors);
    assert_eq!(found, Err(Failure::InvalidAncestorChain));
}

#[test]
fn a_gap_in_the_numbers_breaks_the_chain() {
    let ancestors = vec![sealed(7, 80, 70), sealed(9, 90, 80)];
    let found = compute_ancestor_hashes::<u8>(&header(10, [90; 32]), &ancestors);
    assert_eq!(found, Err(Failure::InvalidAncestorChain));
    let ancestors = vec![sealed(9, 90, 80)];
    let found = compute_ancestor_hashes::<u8>(&header(11, [90; 32]), &ancestors);
    assert_eq!(found, Err(Failure::InvalidAncestorChain));
}

#[test]
fn no_block_follows_the_largest_number() {
    let ancestors = vec![sealed(u64::MAX, 90, 80)];
    let found = compute_ancestor_hashes::<u8>(&header(0, [90; 32]), &ancestors);
    assert_eq!(found, Err(Failure::InvalidAncestorChain));
}

#[test]
fn the_last_block_may_follow_its_parent() {
    let ancestors = vec![sealed(u64::MAX - 1, 90, 80)];
    let found = compute_ancestor_hashes::<u8>(&header(u64::MAX, [90; 32]), &ancestors).unwrap();
    assert_eq!(found.get(&(u64::MAX - 1)), Some(&[90; 32]));
}

#[test]
fn sorting_is_stable() {
    let listed = vec![sealed(3, 1, 0), sealed(1, 2, 0), sealed(3, 3, 0), sealed(2, 4, 0), sealed(1, 5, 0)];
    let sorted = sort_by_number(listed);
    let order: Vec<(u64, u8)> = sorted.iter().map(|h| (h.header.number, h.hash[0])).collect();
    assert_eq!(order, vec![(1, 2), (1, 5), (2, 4), (3, 1), (3, 3)]);
    assert!(sort_by_number(Vec::new()).is_empty());
}

#[test]
fn ancestors_are_put_in_order() {
    let listed = vec![sealed(9, 90, 80), sealed(7, 70, 60), sealed(8, 80, 70)];
    let found = ancestry::<u8>(&header(10, [90; 32]), listed).unwrap();
    assert_eq!(found.parent, sealed(9, 90, 80));
    assert_eq!(found.hashes.keys().copied().collect::<Vec<u64>>(), vec![7, 8, 9]);
}

#[test]
fn ancestors_of_the_same_number_are_refused() {
    let listed = vec![sealed(9, 90, 80), sealed(9, 90, 80)];
    assert_eq!(
        ancestry::<u8>(&header(10, [90; 32]), listed),
        Err(Failure::InvalidAncestorChain)
    );
}

#[test]
fn the_parent_is_required() {
    assert_eq!(
        ancestry::<u8>(&header(10, [90; 32]), Vec::new()),
        Err(Failure::MissingAncestorHeader)
    );
    assert_eq!(
        witnessed_ancestry::<u8>(&header(10, [90; 32]), &ExecutionWitness { headers: Vec::new() }),
        Err(Failure::MissingAncestorHeader)
    );
}

#[test]
fn headers_are_sealed_with_the_digest_of_their_bytes() {
    let (encoded, hashes) = encoded_chain(5, 2);
    let decoded = decode_ancestor_headers::<u8>(&ExecutionWitness { headers: encoded }).unwrap();
    assert_eq!(decoded.len(), 2);
    assert_eq!(decoded[0], SealedHeader::new(header(5, [0xee; 32]), hashes[0]));
    assert_eq!(decoded[1], SealedHeader::new(header(6, hashes[0]), hashes[1]));
}

#[test]
fn every_field_survives_decoding() {
    let wire = alloy_consensus::Header {
        parent_hash: [1; 32].into(),
        ommers_hash: [2; 32].into(),
        beneficiary: [3; 20].into(),
        state_root: [4; 32].into(),
        transactions_root: [5; 32].into(),
        receipts_root: [6; 32].into(),
        logs_bloom: [7; 256].into(),
        difficulty: alloy_primitives::U256::from(0x0102u64),
        number: 9,
        gas_limit: 10,
        gas_used: 11,
        timestamp: 12,
        extra_data: vec![13, 14].into(),
        mix_hash: [15; 32].into(),
        nonce: [16; 8].into(),
        base_fee_per_gas: Some(17),
        withdrawals_root: Some([18; 32].into()),
        blob_gas_used: Some(19),
        excess_blob_gas: Some(20),
        parent_beacon_block_root: Some([21; 32].into()),
        requests_hash: Some([22; 32].into()),
    };
    let witness = ExecutionWitness { headers: vec![alloy_rlp::encode(&wire)] };
    let decoded = decode_ancestor_headers::<u8>(&witness).unwrap();
    let mut difficulty = [0u8; 32];
    difficulty[30] = 1;
    difficulty[31] = 2;
    let expected = Header {
        parent_hash: [1; 32],
        ommers_hash: [2; 32],
        beneficiary: [3; 20],
        state_root: [4; 32],
        transactions_root: [5; 32],
        receipts_root: [6; 32],
        logs_bloom: [7; 256],
        difficulty,
        number: 9,
        gas_limit: 10,
        gas_used: 11,
        timestamp: 12,
        extra_data: vec![13, 14],
        mix_hash: [15; 32],
        nonce: [16; 8],
        base_fee_per_gas: Some(17),
        withdrawals_root: Some([18; 32]),
        blob_gas_used: Some(19),
        excess_blob_gas: Some(20),
        parent_beacon_block_root: Some([21; 32]),
        requests_hash: Some([22; 32]),
    };
    assert_eq!(decoded[0].header, expected);
    assert_eq!(decoded[0].hash, expected.hash_slow());
}

#[test]
fn bytes_that_encode_no_header_are_refused() {
    let (good, _) = encoded_chain(5, 1);
    for bad in [Vec::new(), vec![0x80], vec![0xc0], vec![1, 2, 3]] {
        let witness = ExecutionWitness { headers: vec![good[0].clone(), bad] };
        assert_eq!(
            decode_ancestor_headers::<u8>(&witness),
            Err(Failure::HeaderDeserializationFailed)
        );
    }
}

#[test]
fn trailing_bytes_are_refused() {
    let (mut encoded, _) = encoded_chain(5, 1);
    encoded[0].push(0);
    let current = header(6, [0; 32]);
    assert_eq!(
        witnessed_ancestry::<u8>(&current, &ExecutionWitness { headers: encoded }),
        Err(Failure::HeaderDeserializationFailed)
    );
}

#[test]
fn the_limit_itself_is_accepted() {
    let (encoded, hashes) = encoded_chain(100, 256);
    let current = header(356, hashes[255]);
    let found =
        witnessed_ancestry::<u8>(&current, &ExecutionWitness { headers: encoded }).unwrap();
    assert_eq!(found.hashes.len(), BLOCKHASH_ANCESTOR_LIMIT);
    assert_eq!(found.parent.header.number, 355);
    assert_eq!(found.hashes.get(&100), Some(&hashes[0]));
    assert_eq!(found.hashes.get(&355), Some(&hashes[255]));
    assert_eq!(found.hashes.get(&99), None);
    assert_eq!(found.hashes.get(&356), None);
}

#[test]
fn more_than_the_limit_is_refused() {
    let (encoded, hashes) = encoded_chain(100, 257);
    let current = header(357, hashes[256]);
    assert_eq!(
        witnessed_ancestry::<u8>(&current, &ExecutionWitness { headers: encoded }),
        Err(Failure::AncestorHeaderLimitExceeded { count: 257, limit: 256 })
    );
}

#[test]
fn the_limit_comes_before_the_chain() {
    let ancestors: Vec<SealedHeader> = (0..300).map(|_| sealed(1, 1, 1)).collect();
    assert_eq!(
        ancestry::<u8>(&header(10, [90; 32]), ancestors),
        Err(Failure::AncestorHeaderLimitExceeded { count: 300, limit: 256 })
    );
}

#[test]
fn decoding_comes_before_the_limit() {
    let (mut encoded, hashes) = encoded_chain(100, 257);
    encoded[256] = vec![0x80];
    assert_eq!(
        witnessed_ancestry::<u8>(&header(357, hashes[256]), &ExecutionWitness { headers: encoded }),
        Err(Failure::HeaderDeserializationFailed)
    );
}

#[test]
fn the_order_of_a_witness_does_not_matter() {
    let (encoded, hashes) = encoded_chain(40, 5);
    let current = header(45, hashes[4]);
    let expected =
        witnessed_ancestry::<u8>(&current, &ExecutionWitness { headers: encoded.clone() }).unwrap();
    assert_eq!(expected.parent.hash, current.parent_hash);
    for turn in 1..5 {
        let mut listed = encoded.clone();
        listed.rotate_left(turn);
        listed.swap(0, 3);
        let found = witnessed_ancestry::<u8>(&current, &ExecutionWitness { headers: listed });
        assert_eq!(found.unwrap(), expected);
    }
}
