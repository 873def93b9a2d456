//! Validation of blocks as a whole.

use stateless::ancestors::ExecutionWitness;
use stateless::consensus::validate_block_consensus;
use stateless::consensus::ConsensusCheck;
use stateless::consensus::ConsensusProgress;
use stateless::consensus::ConsensusStage;
use stateless::consensus::RecoveredBlock;
use stateless::consensus::TrieStage;
use stateless::error::StatelessTrieError;
use stateless::error::StatelessValidationError;
use stateless::header::Header;
use stateless::validation::check_post_state_root;
use stateless::validation::stateless_validation;
use stateless::validation::stateless_validation_recovered;
use stateless::validation::stateless_validation_recovered_with_trie;
use stateless::validation::stateless_validation_with_trie;
use stateless::validation::StatelessValidationOutput;
use stateless::validation::WholeBlock;

type Failure = StatelessValidationError<u8>;

fn wire_header(number: u64, parent_hash: [u8; 32], state_root: [u8; 32]) -> alloy_consensus::Header {
    alloy_consensus::Header {
        number,
        parent_hash: parent_hash.into(),
        state_root: state_root.into(),
        ..Default::default()
    }
}

fn header(wire: &alloy_consensus::Header) -> Header {
    Header {
        parent_hash: wire.parent_hash.0,
        ommers_hash: wire.ommers_hash.0,
        beneficiary: [0; 20],
        state_root: wire.state_root.0,
        transactions_root: wire.transactions_root.0,
        receipts_root: wire.receipts_root.0,
        logs_bloom: [0; 256],
        difficulty: [0; 32],
        number: wire.number,
        gas_limit: 0,
        gas_used: 0,
        timestamp: 0,
        extra_data: Vec::new(),
        mix_hash: [0; 32],
        nonce: [0; 8],
        base_fee_per_gas: None,
        withdrawals_root: None,
        blob_gas_used: None,
        excess_blob_gas: None,
        parent_beacon_block_root: None,
        requests_hash: None,
    }
}

const PRE: [u8; 32] = [0x11; 32];
const POST: [u8; 32] = [0x22; 32];

/// A block with state root `POST` on a parent with state root `PRE`, its witness, and its hash.
fn block() -> (RecoveredBlock, ExecutionWitness, [u8; 32]) {
    let parent = wire_header(41, [0; 32], PRE);
    let wire = wire_header(42, parent.hash_slow().0, POST);
    let witness = ExecutionWitness { headers: vec![alloy_rlp::encode(&parent)] };
    let hash = wire.hash_slow().0;
    (
        RecoveredBlock { header: header(&wire), transaction_count: 0, withdrawal_count: None },
        witness,
        hash,
    )
}

fn begun() -> ConsensusStage<WholeBlock> {
    let (block, witness, _) = block();
    stateless_validation_recovered_with_trie::<u8>(block, &witness).unwrap()
}

/// The checks in the order in which they come due, and the stage after them.
fn pass_consensus(stage: ConsensusStage<WholeBlock>) -> (Vec<ConsensusCheck>, TrieStage<WholeBlock>) {
    let mut checks = Vec::new();
    let mut stage = stage;
    loop {
        checks.push(stage.due);
        match validate_block_consensus::<WholeBlock, u8>(stage, Ok(())).unwrap() {
            ConsensusProgress::Check(next) => stage = next,
            ConsensusProgress::Passed(trie) => return (checks, trie),
        }
    }
}

#[test]
fn a_valid_block_is_accepted() {
    let (_, _, hash) = block();
    let (checks, trie) = pass_consensus(begun());
    assert_eq!(
        checks,
        vec![
            ConsensusCheck::Header,
            ConsensusCheck::HeaderAgainstParent,
            ConsensusCheck::BlockPreExecution
        ]
    );
    assert_eq!(trie.pre_state_root(), PRE);
    let stage = trie.witness_revealed::<u8>(Ok(())).unwrap();
    let (expected, _, _) = block();
    assert_eq!(stage.ancestor_hashes().len(), 1);
    assert_eq!(stage.ancestor_hashes().get(&41), Some(&expected.header.parent_hash));
    let stage = stage.block_executed::<&str, u8>(Ok("executed")).unwrap();
    let stage = stage.post_execution_validated::<u8>(Ok(())).unwrap();
    let output = stage.state_root_calculated::<u8>(Ok(POST)).unwrap();
    assert_eq!(
        output,
        StatelessValidationOutput {
            block_hash: hash,
            execution_output: "executed",
            block_access_list: None
        }
    );
}

#[test]
fn each_consensus_check_can_refuse() {
    for failing in 0..3 {
        let mut stage = begun();
        for passed in 0..failing {
            stage = match validate_block_consensus::<WholeBlock, u8>(stage, Ok(())).unwrap() {
                ConsensusProgress::Check(next) => next,
                ConsensusProgress::Passed(_) => panic!("passed after {} checks", passed + 1),
            };
        }
        assert_eq!(
            validate_block_consensus::<WholeBlock, u8>(stage, Err(failing)),
            Err(Failure::ConsensusValidationFailed(failing))
        );
    }
}

#[test]
fn a_trie_that_cannot_be_revealed_ends_the_validation() {
    let (_, trie) = pass_consensus(begun());
    let err = StatelessTrieError::WitnessRevealFailed { pre_state_root: PRE };
    assert_eq!(
        trie.witness_revealed::<u8>(Err(err)),
        Err(Failure::WitnessRevealFailed { pre_state_root: PRE })
    );
    let (_, trie) = pass_consensus(begun());
    let err = StatelessTrieError::PreStateRootMismatch { got: POST, expected: PRE };
    assert_eq!(
        trie.witness_revealed::<u8>(Err(err)),
        Err(Failure::PreStateRootMismatch { got: POST, expected: PRE })
    );
    let (_, trie) = pass_consensus(begun());
    let err = StatelessTrieError::StatelessPreStateRootCalculationFailed;
    assert_eq!(
        trie.witness_revealed::<u8>(Err(err)),
        Err(Failure::StatelessPreStateRootCalculationFailed)
    );
}

#[test]
fn a_failed_execution_ends_the_validation() {
    let (_, trie) = pass_consensus(begun());
    let stage = trie.witness_revealed::<u8>(Ok(())).unwrap();
    assert_eq!(
        stage.block_executed::<u64, u8>(Err("halted".to_string())),
        Err(Failure::StatelessExecutionFailed("halted".to_string()))
    );
}

#[test]
fn a_failed_check_after_execution_ends_the_validation() {
    let (_, trie) = pass_consensus(begun());
    let stage = trie.witness_revealed::<u8>(Ok(())).unwrap();
    let stage = stage.block_executed::<u64, u8>(Ok(5)).unwrap();
    assert_eq!(stage.output, 5);
    assert_eq!(
        stage.post_execution_validated::<u8>(Err(9)),
        Err(Failure::ConsensusValidationFailed(9))
    );
}

#[test]
fn a_wrong_state_root_is_refused() {
    for (reply, expected) in [
        (Ok(PRE), Failure::PostStateRootMismatch { got: PRE, expected: POST }),
        (
            Err(StatelessTrieError::StatelessStateRootCalculationFailed),
            Failure::StatelessStateRootCalculationFailed,
        ),
    ] {
        let (_, trie) = pass_consensus(begun());
        let stage = trie.witness_revealed::<u8>(Ok(())).unwrap();
        let stage = stage.block_executed::<u64, u8>(Ok(5)).unwrap();
        let stage = stage.post_execution_validated::<u8>(Ok(())).unwrap();
        assert_eq!(stage.state_root_calculated::<u8>(reply), Err(expected));
    }
}

#[test]
fn state_roots_are_compared() {
    assert_eq!(check_post_state_root::<u8>(POST, POST), Ok(()));
    assert_eq!(
        check_post_state_root::<u8>(PRE, POST),
        Err(Failure::PostStateRootMismatch { got: PRE, expected: POST })
    );
}

#[test]
fn a_refused_witness_ends_the_validation() {
    let (block_, _, _) = block();
    assert_eq!(
        stateless_validation_recovered_with_trie::<u8>(
            block_,
            &ExecutionWitness { headers: vec![vec![1, 2, 3]] }
        ),
        Err(Failure::HeaderDeserializationFailed)
    );
    let (mut block_, witness, _) = block();
    block_.header.parent_hash[0] ^= 1;
    assert_eq!(
        stateless_validation_recovered_with_trie::<u8>(block_, &witness),
        Err(Failure::InvalidAncestorChain)
    );
    let (block_, _, _) = block();
    assert_eq!(
        stateless_validation_recovered::<u8>(block_, &ExecutionWitness { headers: Vec::new() }),
        Err(Failure::MissingAncestorHeader)
    );
}

#[test]
fn a_failed_recovery_is_reported() {
    let (_, witness, _) = block();
    assert_eq!(
        stateless_validation::<u8>(Err(Failure::SignerRecovery), &witness),
        Err(Failure::SignerRecovery)
    );
    assert_eq!(
        stateless_validation_with_trie::<u8>(Err(Failure::HomesteadSignatureNotNormalized), &witness),
        Err(Failure::HomesteadSignatureNotNormalized)
    );
}

#[test]
fn all_entry_points_begin_alike() {
    let expected = begun();
    let (block_, witness, _) = block();
    assert_eq!(stateless_validation::<u8>(Ok(block_), &witness).unwrap(), expected);
    let (block_, witness, _) = block();
    assert_eq!(stateless_validation_with_trie::<u8>(Ok(block_), &witness).unwrap(), expected);
    let (block_, witness, _) = block();
    assert_eq!(stateless_validation_recovered::<u8>(block_, &witness).unwrap(), expected);
    assert_eq!(expected.due, ConsensusCheck::Header);
    assert_eq!(expected.setup.ancestry.parent.header.state_root, PRE);
}
