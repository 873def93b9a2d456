//! Validation of blocks transaction by transaction.

use stateless::ancestors::ExecutionWitness;
use stateless::consensus::validate_block_consensus;
use stateless::consensus::ConsensusProgress;
use stateless::consensus::ConsensusStage;
use stateless::consensus::RecoveredBlock;
use stateless::consensus::TrieStage;
use stateless::error::StatelessTrieError;
use stateless::error::StatelessValidationError;
use stateless::header::Header;
use stateless::pair_roots::final_root;
use stateless::pair_roots::nothing_follows_transactions;
use stateless::pair_roots::stateless_validation_recovered_with_pair_roots;
use stateless::pair_roots::transaction_statuses;
use stateless::pair_roots::BlockProgress;
use stateless::pair_roots::EndpointRootStage;
use stateless::pair_roots::FinishStage;
use stateless::pair_roots::FinishedBlock;
use stateless::pair_roots::PairRoots;
use stateless::pair_roots::PairRootsProgress;
use stateless::pair_roots::PreExecutionRootStage;
use stateless::pair_roots::Receipt;
use stateless::pair_roots::Roots;
use stateless::validation::stateless_validation_recovered_with_trie;

type Failure = StatelessValidationError<u8>;
type Concluded = Result<([u8; 32], Vec<[u8; 32]>, Vec<bool>), Failure>;

const PRE: [u8; 32] = [0x11; 32];
const POST: [u8; 32] = [0x22; 32];

fn wire_header(number: u64, parent_hash: [u8; 32], state_root: [u8; 32]) -> alloy_consensus::Header {
    alloy_consensus::Header {
        number,
        parent_hash: parent_hash.into(),
        state_root: state_root.into(),
        ..Default::default()
    }
}

fn header(wire: &alloy_consensus::Header) -> Header {
    Header {
        parent_hash: wire.parent_hash.0,
        ommers_hash: wire.ommers_hash.0,
        beneficiary: [0; 20],
        state_root: wire.state_root.0,
        transactions_root: wire.transactions_root.0,
        receipts_root: wire.receipts_root.0,
        logs_bloom: [0; 256],
        difficulty: [0; 32],
        number: wire.number,
        gas_limit: 0,
        gas_used: 0,
        timestamp: 0,
        extra_data: Vec::new(),
        mix_hash: [0; 32],
        nonce: [0; 8],
        base_fee_per_gas: None,
        withdrawals_root: None,
        blob_gas_used: None,
        excess_blob_gas: None,
        parent_beacon_block_root: None,
        requests_hash: None,
    }
}

fn block(
    transaction_count: usize,
    withdrawal_count: Option<usize>,
) -> (RecoveredBlock, ExecutionWitness, [u8; 32]) {
    let parent = wire_header(41, [0; 32], PRE);
    let wire = wire_header(42, parent.hash_slow().0, POST);
    let witness = ExecutionWitness { headers: vec![alloy_rlp::encode(&parent)] };
    let hash = wire.hash_slow().0;
    (RecoveredBlock { header: header(&wire), transaction_count, withdrawal_count }, witness, hash)
}

fn trie_stage(transaction_count: usize, withdrawal_count: Option<usize>) -> TrieStage<PairRoots> {
    let (block, witness, _) = block(transaction_count, withdrawal_count);
    let mut stage: ConsensusStage<PairRoots> =
        stateless_validation_recovered_with_pair_roots::<u8>(block, &witness).unwrap();
    loop {
        match validate_block_consensus::<PairRoots, u8>(stage, Ok(())).unwrap() {
            ConsensusProgress::Check(next) => stage = next,
            ConsensusProgress::Passed(trie) => return trie,
        }
    }
}

fn applied(transaction_count: usize, withdrawal_count: Option<usize>) -> PreExecutionRootStage {
    let trie = trie_stage(transaction_count, withdrawal_count);
    assert_eq!(trie.pre_state_root(), PRE);
    let stage = trie.witness_revealed::<u8>(Ok(())).unwrap();
    assert_eq!(stage.ancestor_hashes().keys().copied().collect::<Vec<u64>>(), vec![41]);
    let stage = stage.executor_made::<u8>(Ok(())).unwrap();
    stage.pre_execution_applied::<u8>(Ok(())).unwrap()
}

/// Executes the transactions with the given roots after each.
fn executed(pre_root: [u8; 32], roots: &[[u8; 32]], withdrawal_count: Option<usize>) -> FinishStage {
    let stage = applied(roots.len(), withdrawal_count);
    assert_eq!(stage.pre_state_root(), PRE);
    let mut progress = stage.root_calculated::<u8>(Ok(pre_root)).unwrap();
    let mut count = 0;
    loop {
        match progress {
            BlockProgress::Execute(stage) => {
                assert_eq!(stage.index(), count);
                let stage = stage.transaction_executed::<u8>(Ok(())).unwrap();
                assert_eq!(stage.pre_state_root(), PRE);
                progress = stage.root_calculated::<u8>(Ok(roots[count])).unwrap();
                count += 1;
            }
            BlockProgress::Finish(stage) => {
                assert_eq!(count, roots.len());
                return stage;
            }
        }
    }
}

fn finished(statuses: &[bool], request_count: usize) -> FinishedBlock {
    FinishedBlock {
        receipts: statuses.iter().map(|success| Receipt { success: *success }).collect(),
        request_count,
    }
}

/// Concludes the validation of a block that leaves nothing for after its last transaction.
fn conclude(stage: FinishStage, handed_over: FinishedBlock) -> Concluded {
    let stage = stage.block_finished::<u8>(Ok(handed_over)).unwrap();
    match stage.post_execution_validated::<u8>(Ok(()))? {
        PairRootsProgress::Accepted(accepted) => Ok(accepted),
        PairRootsProgress::Endpoint(_) => panic!("nothing follows the transactions"),
    }
}

/// Asks for the root of a block that leaves something for after its last transaction.
fn ask_endpoint(stage: FinishStage, handed_over: FinishedBlock) -> EndpointRootStage {
    let stage = stage.block_finished::<u8>(Ok(handed_over)).unwrap();
    match stage.post_execution_validated::<u8>(Ok(())).unwrap() {
        PairRootsProgress::Accepted(_) => panic!("the root of the finished block is due"),
        PairRootsProgress::Endpoint(stage) => {
            assert_eq!(stage.pre_state_root(), PRE);
            stage
        }
    }
}

/// Validates a block as a whole.
fn whole(
    transaction_count: usize,
    withdrawal_count: Option<usize>,
    root: [u8; 32],
) -> Result<[u8; 32], Failure> {
    let (block, witness, _) = block(transaction_count, withdrawal_count);
    let mut stage = stateless_validation_recovered_with_trie::<u8>(block, &witness).unwrap();
    let trie = loop {
        match validate_block_consensus(stage, Ok::<(), u8>(())).unwrap() {
            ConsensusProgress::Check(next) => stage = next,
            ConsensusProgress::Passed(trie) => break trie,
        }
    };
    let stage = trie.witness_revealed::<u8>(Ok(())).unwrap();
    let stage = stage.block_executed::<u64, u8>(Ok(1)).unwrap();
    let stage = stage.post_execution_validated::<u8>(Ok(())).unwrap();
    stage.state_root_calculated::<u8>(Ok(root)).map(|output| output.block_hash)
}

#[test]
fn the_root_after_each_transaction_is_handed_out() {
    let (_, _, hash) = block(3, None);
    let stage = executed([0x33; 32], &[[1; 32], [2; 32], POST], None);
    assert_eq!(
        conclude(stage, finished(&[true, false, true], 0)),
        Ok((hash, vec![[1; 32], [2; 32], POST], vec![true, false, true]))
    );
}

#[test]
fn an_empty_list_of_withdrawals_changes_nothing() {
    let stage = executed([0x33; 32], &[[1; 32], POST], Some(0));
    let (_, roots, _) = conclude(stage, finished(&[true, true], 0)).unwrap();
    assert_eq!(roots, vec![[1; 32], POST]);
}

#[test]
fn withdrawals_withhold_the_roots() {
    let (_, _, hash) = block(2, Some(1));
    let stage = executed([0x33; 32], &[[1; 32], POST], Some(1));
    let stage = ask_endpoint(stage, finished(&[true, false], 0));
    assert_eq!(stage.root_calculated::<u8>(Ok(POST)), Ok((hash, Vec::new(), vec![true, false])));
}

#[test]
fn requests_withhold_the_roots() {
    let (_, _, hash) = block(2, None);
    let stage = executed([0x33; 32], &[[1; 32], POST], None);
    let stage = ask_endpoint(stage, finished(&[true, true], 2));
    assert_eq!(stage.root_calculated::<u8>(Ok(POST)), Ok((hash, Vec::new(), vec![true, true])));
}

#[test]
fn withdrawals_that_change_the_state_do_not_refuse_the_block() {
    let stage = executed([0x33; 32], &[[1; 32], [2; 32]], Some(1));
    let stage = ask_endpoint(stage, finished(&[true, false], 0));
    let (hash, roots, statuses) = stage.root_calculated::<u8>(Ok(POST)).unwrap();
    assert_eq!(Ok(hash), whole(2, Some(1), POST));
    assert!(roots.is_empty());
    assert_eq!(statuses, vec![true, false]);
}

#[test]
fn requests_that_change_the_state_do_not_refuse_the_block() {
    let stage = executed([0x33; 32], &[[1; 32], [2; 32]], None);
    let stage = ask_endpoint(stage, finished(&[true, true], 1));
    let (hash, roots, statuses) = stage.root_calculated::<u8>(Ok(POST)).unwrap();
    assert_eq!(Ok(hash), whole(2, None, POST));
    assert!(roots.is_empty());
    assert_eq!(statuses, vec![true, true]);
}

#[test]
fn an_empty_block_with_withdrawals_ends_at_the_root_of_the_finished_block() {
    let (_, _, hash) = block(0, Some(2));
    let stage = ask_endpoint(executed(PRE, &[], Some(2)), finished(&[], 0));
    assert_eq!(stage.root_calculated::<u8>(Ok(POST)), Ok((hash, Vec::new(), Vec::new())));
}

#[test]
fn the_root_of_the_finished_block_must_be_the_one_in_the_header() {
    // The last snapshot is the root in the header, but the finished block has another.
    let stage = ask_endpoint(executed(PRE, &[POST], Some(1)), finished(&[true], 0));
    let refused = Failure::PostStateRootMismatch { got: [2; 32], expected: POST };
    assert_eq!(stage.root_calculated::<u8>(Ok([2; 32])), Err(refused.clone()));
    assert_eq!(whole(1, Some(1), [2; 32]), Err(refused));

    let stage = ask_endpoint(executed(PRE, &[POST], Some(1)), finished(&[true], 0));
    assert_eq!(
        stage.root_calculated::<u8>(Err(StatelessTrieError::StatelessStateRootCalculationFailed)),
        Err(Failure::StatelessStateRootCalculationFailed)
    );
}

#[test]
fn an_empty_block_ends_at_the_root_before_its_transactions() {
    let (_, _, hash) = block(0, None);
    let stage = executed(POST, &[], None);
    assert_eq!(conclude(stage, finished(&[], 0)), Ok((hash, Vec::new(), Vec::new())));
    let stage = executed(PRE, &[], None);
    assert_eq!(
        conclude(stage, finished(&[], 0)),
        Err(Failure::PostStateRootMismatch { got: PRE, expected: POST })
    );
}

#[test]
fn the_last_root_must_be_the_one_in_the_header() {
    let stage = executed(POST, &[POST, [2; 32]], None);
    assert_eq!(
        conclude(stage, finished(&[true, true], 0)),
        Err(Failure::PostStateRootMismatch { got: [2; 32], expected: POST })
    );
}

#[test]
fn consensus_comes_before_the_state_root() {
    let stage = executed(PRE, &[[2; 32]], None);
    let stage = stage.block_finished::<u8>(Ok(finished(&[true], 0))).unwrap();
    assert_eq!(
        stage.post_execution_validated::<u8>(Err(6)),
        Err(Failure::ConsensusValidationFailed(6))
    );
    let stage = executed(PRE, &[[2; 32]], Some(1));
    let stage = stage.block_finished::<u8>(Ok(finished(&[true], 0))).unwrap();
    assert_eq!(
        stage.post_execution_validated::<u8>(Err(7)),
        Err(Failure::ConsensusValidationFailed(7))
    );
}

#[test]
fn every_step_of_the_execution_can_fail() {
    let reason = || "reason".to_string();
    let failed = || Failure::StatelessExecutionFailed("reason".to_string());
    let stage = trie_stage(1, None).witness_revealed::<u8>(Ok(())).unwrap();
    assert_eq!(stage.executor_made::<u8>(Err(reason())), Err(failed()));

    let stage = trie_stage(1, None).witness_revealed::<u8>(Ok(())).unwrap();
    let stage = stage.executor_made::<u8>(Ok(())).unwrap();
    assert_eq!(stage.pre_execution_applied::<u8>(Err(reason())), Err(failed()));

    match applied(1, None).root_calculated::<u8>(Ok(PRE)).unwrap() {
        BlockProgress::Execute(stage) => {
            assert_eq!(stage.transaction_executed::<u8>(Err(reason())), Err(failed()));
        }
        BlockProgress::Finish(_) => panic!("the transaction is due"),
    }

    let stage = executed(PRE, &[POST], None);
    assert_eq!(stage.block_finished::<u8>(Err(reason())), Err(failed()));
}

#[test]
fn every_snapshot_can_fail() {
    let err = || StatelessTrieError::StatelessStateRootCalculationFailed;
    assert_eq!(
        trie_stage(1, None).witness_revealed::<u8>(Err(err())),
        Err(Failure::StatelessStateRootCalculationFailed)
    );
    assert_eq!(
        applied(1, None).root_calculated::<u8>(Err(err())),
        Err(Failure::StatelessStateRootCalculationFailed)
    );
    match applied(1, None).root_calculated::<u8>(Ok(PRE)).unwrap() {
        BlockProgress::Execute(stage) => {
            let stage = stage.transaction_executed::<u8>(Ok(())).unwrap();
            assert_eq!(
                stage.root_calculated::<u8>(Err(StatelessTrieError::WitnessRevealFailed {
                    pre_state_root: PRE
                })),
                Err(Failure::WitnessRevealFailed { pre_state_root: PRE })
            );
        }
        BlockProgress::Finish(_) => panic!("the transaction is due"),
    }
}

#[test]
fn both_flows_begin_alike() {
    let (first, witness, _) = block(2, None);
    let (second, _, _) = block(2, None);
    let whole = stateless_validation_recovered_with_trie::<u8>(first, &witness).unwrap();
    let pairs = stateless_validation_recovered_with_pair_roots::<u8>(second, &witness).unwrap();
    assert_eq!(whole.setup, pairs.setup);
    assert_eq!(whole.due, pairs.due);
    let (first, _, _) = block(2, None);
    let nothing = ExecutionWitness { headers: Vec::new() };
    assert_eq!(
        stateless_validation_recovered_with_pair_roots::<u8>(first, &nothing),
        Err(Failure::MissingAncestorHeader)
    );
}

#[test]
fn both_flows_come_to_the_same_verdict() {
    let (_, _, hash) = block(2, None);
    let verdict = |last: [u8; 32]| {
        conclude(executed(PRE, &[[1; 32], last], None), finished(&[true, true], 0))
            .map(|accepted| accepted.0)
    };
    assert_eq!(whole(2, None, POST), Ok(hash));
    assert_eq!(verdict(POST), Ok(hash));
    let refused = Failure::PostStateRootMismatch { got: [9; 32], expected: POST };
    assert_eq!(whole(2, None, [9; 32]), Err(refused.clone()));
    assert_eq!(verdict([9; 32]), Err(refused));
}

#[test]
fn the_parts_of_the_conclusion() {
    let mut roots = Roots { pre_execution: [5; 32], transactions: Vec::new() };
    assert_eq!(final_root(&roots), [5; 32]);
    roots.transactions = vec![[6; 32], [7; 32]];
    assert_eq!(final_root(&roots), [7; 32]);

    let receipts: Vec<Receipt> = vec![Receipt { success: true }, Receipt { success: false }];
    assert_eq!(transaction_statuses(&receipts), vec![true, false]);
    assert!(transaction_statuses(&Vec::new()).is_empty());

    let (plain, _, _) = block(1, None);
    let (withdrawing, _, _) = block(1, Some(3));
    let (emptied, _, _) = block(1, Some(0));
    assert!(nothing_follows_transactions(&plain, 0));
    assert!(nothing_follows_transactions(&emptied, 0));
    assert!(!nothing_follows_transactions(&plain, 1));
    assert!(!nothing_follows_transactions(&withdrawing, 0));
}
