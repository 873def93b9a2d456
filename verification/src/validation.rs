//! Validation of a block as a whole: one execution, one state root.

use crate::ancestors::decoded_ancestors;
use crate::ancestors::follows;
use crate::ancestors::law_ancestry;
use crate::ancestors::lemma_found_in_witness;
use crate::ancestors::witnessed_ancestry;
use crate::ancestors::witnessed_ancestry_of;
use crate::ancestors::Ancestry;
use crate::ancestors::ExecutionWitness;
use crate::codec::header_of_rlp;
use crate::codec::keccak256_of;
use crate::codec::rlp_of_header;
use crate::consensus::begin;
use crate::consensus::begins;
use crate::consensus::consensus_outcome;
use crate::consensus::law_consensus_takes_three_checks;
use crate::consensus::validate_block_consensus;
use crate::consensus::ConsensusCheck;
use crate::consensus::ConsensusProgress;
use crate::consensus::ConsensusStage;
use crate::consensus::RecoveredBlock;
use crate::consensus::Setup;
use crate::consensus::TrieStage;
use crate::error::trie_failure;
use crate::error::StatelessTrieError;
use crate::error::StatelessValidationError;
use crate::hash::b256_eq;
use crate::hash::B256;
use alloy_eips::eip7928::BlockAccessList;
use std::collections::BTreeMap;
use vstd::prelude::*;

verus! {

/// The changes to one account in a block access list. Nothing here looks inside it.
#[verifier::external_type_specification]
#[verifier::external_body]
pub struct ExAccountChanges(alloy_eips::eip7928::AccountChanges);

/// Output of successful stateless block validation. `O` is what executing the block gave.
#[derive(Clone, Debug, PartialEq, Eq)]
pub struct StatelessValidationOutput<O> {
    /// Hash of the validated block.
    pub block_hash: B256,
    /// Execution output produced while validating the block.
    pub execution_output: O,
    /// Block access list produced during execution, if available.
    pub block_access_list: Option<BlockAccessList>,
}

/// The flow in which a block is executed at once.
#[derive(Clone, Copy, Debug, PartialEq, Eq, Structural)]
pub struct WholeBlock;

/// A validation that waits for the execution of the block.
#[derive(Debug, PartialEq, Eq)]
pub struct ExecutionStage {
    /// The block and its ancestors.
    pub setup: Setup,
}

/// A validation that waits for the consensus check on what execution gave.
#[derive(Debug, PartialEq, Eq)]
pub struct PostExecutionStage<O> {
    /// The block and its ancestors.
    pub setup: Setup,
    /// What execution gave.
    pub output: O,
}

/// A validation that waits for the state root after the block.
#[derive(Debug, PartialEq, Eq)]
pub struct StateRootStage<O> {
    /// The block and its ancestors.
    pub setup: Setup,
    /// What execution gave.
    pub output: O,
}

/// Begins to validate a block whose signers have been recovered, with the default trie.
pub fn stateless_validation<C>(
    recovered: Result<RecoveredBlock, StatelessValidationError<C>>,
    witness: &ExecutionWitness,
) -> (begun: Result<ConsensusStage<WholeBlock>, StatelessValidationError<C>>)
    ensures
        match recovered {
            Ok(block) => begins(block, witness@, WholeBlock, begun),
            Err(err) => begun == Err::<ConsensusStage<WholeBlock>, _>(err),
        },
{
    stateless_validation_with_trie(recovered, witness)
}

/// Begins to validate a block with a trie of the caller's choice. `recovered` is what recovering
/// its signers gave; a failure there is the validation's.
pub fn stateless_validation_with_trie<C>(
    recovered: Result<RecoveredBlock, StatelessValidationError<C>>,
    witness: &ExecutionWitness,
) -> (begun: Result<ConsensusStage<WholeBlock>, StatelessValidationError<C>>)
    ensures
        match recovered {
            Ok(block) => begins(block, witness@, WholeBlock, begun),
            Err(err) => begun == Err::<ConsensusStage<WholeBlock>, _>(err),
        },
{
    match recovered {
        Ok(block) => stateless_validation_recovered_with_trie(block, witness),
        Err(err) => Err(err),
    }
}

/// Begins to validate an already-recovered block, with the default trie.
pub fn stateless_validation_recovered<C>(block: RecoveredBlock, witness: &ExecutionWitness) -> (begun:
    Result<ConsensusStage<WholeBlock>, StatelessValidationError<C>>)
    ensures
        begins(block, witness@, WholeBlock, begun),
{
    stateless_validation_recovered_with_trie(block, witness)
}

/// Begins to validate an already-recovered block, with a trie of the caller's choice.
pub fn stateless_validation_recovered_with_trie<C>(
    block: RecoveredBlock,
    witness: &ExecutionWitness,
) -> (begun: Result<ConsensusStage<WholeBlock>, StatelessValidationError<C>>)
    ensures
        begins(block, witness@, WholeBlock, begun),
{
    begin(block, witness, WholeBlock)
}

/// What follows the reveal of the witness.
pub open spec fn after_reveal<C>(
    stage: TrieStage<WholeBlock>,
    reply: Result<(), StatelessTrieError>,
) -> Result<ExecutionStage, StatelessValidationError<C>> {
    match reply {
        Ok(_) => Ok(ExecutionStage { setup: stage.setup }),
        Err(err) => Err(trie_failure(err)),
    }
}

impl TrieStage<WholeBlock> {
    /// Takes the reply of the trie to the reveal of the witness.
    pub fn witness_revealed<C>(self, reply: Result<(), StatelessTrieError>) -> (next: Result<
        ExecutionStage,
        StatelessValidationError<C>,
    >)
        ensures
            next == after_reveal::<C>(self, reply),
    {
        match reply {
            Ok(_) => Ok(ExecutionStage { setup: self.setup }),
            Err(err) => Err(StatelessValidationError::from(err)),
        }
    }
}

/// What follows the execution of the block.
pub open spec fn after_execution<O, C>(stage: ExecutionStage, reply: Result<O, String>) -> Result<
    PostExecutionStage<O>,
    StatelessValidationError<C>,
> {
    match reply {
        Ok(output) => Ok(PostExecutionStage { setup: stage.setup, output }),
        Err(err) => Err(StatelessValidationError::StatelessExecutionFailed(err)),
    }
}

impl ExecutionStage {
    /// The block hashes that execution may look up.
    pub fn ancestor_hashes(&self) -> (hashes: &BTreeMap<u64, B256>)
        ensures
            *hashes == self.setup.ancestry.hashes,
    {
        &self.setup.ancestry.hashes
    }

    /// Takes what executing the block gave.
    pub fn block_executed<O, C>(self, reply: Result<O, String>) -> (next: Result<
        PostExecutionStage<O>,
        StatelessValidationError<C>,
    >)
        ensures
            next == after_execution::<O, C>(self, reply),
    {
        match reply {
            Ok(output) => Ok(PostExecutionStage { setup: self.setup, output }),
            Err(err) => Err(StatelessValidationError::StatelessExecutionFailed(err)),
        }
    }
}

/// What follows the consensus check on what execution gave.
pub open spec fn after_post_execution<O, C>(
    stage: PostExecutionStage<O>,
    reply: Result<(), C>,
) -> Result<StateRootStage<O>, StatelessValidationError<C>> {
    match reply {
        Ok(_) => Ok(StateRootStage { setup: stage.setup, output: stage.output }),
        Err(err) => Err(StatelessValidationError::ConsensusValidationFailed(err)),
    }
}

impl<O> PostExecutionStage<O> {
    /// Takes the reply to the consensus check on what execution gave.
    pub fn post_execution_validated<C>(self, reply: Result<(), C>) -> (next: Result<
        StateRootStage<O>,
        StatelessValidationError<C>,
    >)
        ensures
            next == after_post_execution::<O, C>(self, reply),
    {
        match reply {
            Ok(_) => Ok(StateRootStage { setup: self.setup, output: self.output }),
            Err(err) => Err(StatelessValidationError::ConsensusValidationFailed(err)),
        }
    }
}

/// Checks a computed post-state root against the one in the block header.
pub fn check_post_state_root<C>(got: B256, expected: B256) -> (checked: Result<
    (),
    StatelessValidationError<C>,
>)
    ensures
        checked == if got == expected {
            Ok::<(), StatelessValidationError<C>>(())
        } else {
            Err(StatelessValidationError::PostStateRootMismatch { got, expected })
        },
{
    if b256_eq(&got, &expected) {
        Ok(())
    } else {
        Err(StatelessValidationError::PostStateRootMismatch { got, expected })
    }
}

/// What the state root after the block decides.
pub open spec fn after_state_root<O, C>(
    stage: StateRootStage<O>,
    reply: Result<B256, StatelessTrieError>,
) -> Result<StatelessValidationOutput<O>, StatelessValidationError<C>> {
    let header = stage.setup.block.header@;
    match reply {
        Ok(got) => if got == header.state_root {
            Ok(
                StatelessValidationOutput {
                    block_hash: header.block_hash(),
                    execution_output: stage.output,
                    block_access_list: None,
                },
            )
        } else {
            Err(
                StatelessValidationError::PostStateRootMismatch {
                    got,
                    expected: header.state_root,
                },
            )
        },
        Err(err) => Err(trie_failure(err)),
    }
}

impl<O> StateRootStage<O> {
    /// Takes the state root after the block, and concludes the validation.
    pub fn state_root_calculated<C>(self, reply: Result<B256, StatelessTrieError>) -> (output: Result<
        StatelessValidationOutput<O>,
        StatelessValidationError<C>,
    >)
        ensures
            output == after_state_root::<O, C>(self, reply),
    {
        let state_root = match reply {
            Ok(state_root) => state_root,
            Err(err) => {
                return Err(StatelessValidationError::from(err));
            },
        };
        let header = self.setup.block.header;
        match check_post_state_root(state_root, header.state_root) {
            Ok(_) => Ok(
                StatelessValidationOutput {
                    block_hash: header.hash_slow(),
                    execution_output: self.output,
                    block_access_list: None,
                },
            ),
            Err(err) => Err(err),
        }
    }
}

/// What the caller answers in a validation of a whole block.
pub struct WholeBlockReplies<O, C> {
    pub header: Result<(), C>,
    pub header_against_parent: Result<(), C>,
    pub block_pre_execution: Result<(), C>,
    pub reveal: Result<(), StatelessTrieError>,
    pub execution: Result<O, String>,
    pub post_execution: Result<(), C>,
    pub state_root: Result<B256, StatelessTrieError>,
}

/// What a validation of a whole block comes to with these replies. A reply after the first failure
/// is never asked for.
pub open spec fn whole_block_outcome<O, C>(
    stage: ConsensusStage<WholeBlock>,
    replies: WholeBlockReplies<O, C>,
) -> Option<Result<StatelessValidationOutput<O>, StatelessValidationError<C>>> {
    let checks = seq![
        replies.header,
        replies.header_against_parent,
        replies.block_pre_execution,
    ];
    match consensus_outcome(stage, checks) {
        None => None,
        Some(Err(err)) => Some(Err(err)),
        Some(Ok(trie)) => match after_reveal::<C>(trie, replies.reveal) {
            Err(err) => Some(Err(err)),
            Ok(execution) => match after_execution::<O, C>(execution, replies.execution) {
                Err(err) => Some(Err(err)),
                Ok(executed) => match after_post_execution(executed, replies.post_execution) {
                    Err(err) => Some(Err(err)),
                    Ok(validated) => Some(after_state_root(validated, replies.state_root)),
                },
            },
        },
    }
}

/// A validation always comes to a conclusion, and the first failure decides it: the three
/// consensus checks, the reveal of the witness, the execution, the check on what it gave, and the
/// state root, in this order. Without a failure, the block is accepted if and only if the state
/// root is the one in its header.
pub proof fn law_first_failure_decides<O, C>(
    stage: ConsensusStage<WholeBlock>,
    replies: WholeBlockReplies<O, C>,
)
    requires
        stage.due == ConsensusCheck::Header,
    ensures
        whole_block_outcome(stage, replies) == Some(
            if replies.header is Err {
                Err(StatelessValidationError::ConsensusValidationFailed(replies.header->Err_0))
            } else if replies.header_against_parent is Err {
                Err(
                    StatelessValidationError::ConsensusValidationFailed(
                        replies.header_against_parent->Err_0,
                    ),
                )
            } else if replies.block_pre_execution is Err {
                Err(
                    StatelessValidationError::ConsensusValidationFailed(
                        replies.block_pre_execution->Err_0,
                    ),
                )
            } else if replies.reveal is Err {
                Err(trie_failure(replies.reveal->Err_0))
            } else if replies.execution is Err {
                Err(StatelessValidationError::StatelessExecutionFailed(replies.execution->Err_0))
            } else if replies.post_execution is Err {
                Err(
                    StatelessValidationError::ConsensusValidationFailed(
                        replies.post_execution->Err_0,
                    ),
                )
            } else if replies.state_root is Err {
                Err(trie_failure(replies.state_root->Err_0))
            } else if replies.state_root->Ok_0 != stage.setup.block.header.state_root {
                Err(
                    StatelessValidationError::PostStateRootMismatch {
                        got: replies.state_root->Ok_0,
                        expected: stage.setup.block.header.state_root,
                    },
                )
            } else {
                Ok(
                    StatelessValidationOutput {
                        block_hash: stage.setup.block.header@.block_hash(),
                        execution_output: replies.execution->Ok_0,
                        block_access_list: None,
                    },
                )
            },
        ),
{
    let checks = seq![
        replies.header,
        replies.header_against_parent,
        replies.block_pre_execution,
    ];
    law_consensus_takes_three_checks(stage, checks);
}

/// What an accepted block rests on: its witness gave ancestors that lead up to it; every reply was
/// a success; and the state root after it is the one in its header. The output is the block's hash
/// and what execution gave.
pub proof fn law_accepted_block<O, C>(
    block: RecoveredBlock,
    encoded: Seq<Seq<u8>>,
    stage: ConsensusStage<WholeBlock>,
    replies: WholeBlockReplies<O, C>,
    output: StatelessValidationOutput<O>,
)
    requires
        begins(block, encoded, WholeBlock, Ok::<_, StatelessValidationError<C>>(stage)),
        whole_block_outcome(stage, replies) == Some(
            Ok::<StatelessValidationOutput<O>, StatelessValidationError<C>>(output),
        ),
    ensures
        witnessed_ancestry_of::<C>(block.header@, encoded) is Ok,
        follows(block.header@, stage.setup.ancestry.parent@),
        replies.header is Ok,
        replies.header_against_parent is Ok,
        replies.block_pre_execution is Ok,
        replies.reveal is Ok,
        replies.execution == Ok::<O, String>(output.execution_output),
        replies.post_execution is Ok,
        replies.state_root == Ok::<B256, StatelessTrieError>(block.header.state_root),
        output.block_hash == keccak256_of(rlp_of_header(block.header@)),
        output.block_access_list is None,
{
    law_first_failure_decides(stage, replies);
    law_ancestry::<C>(block.header@, decoded_ancestors(encoded)->Some_0);
}

/// However this flow is entered, it begins on the given block, with the header check due and with
/// the ancestors that the witness gives; and it is refused where the witness is, with the same
/// error.
pub proof fn law_beginning<C>(
    block: RecoveredBlock,
    witness: ExecutionWitness,
    found: Result<Ancestry, StatelessValidationError<C>>,
    begun: Result<ConsensusStage<WholeBlock>, StatelessValidationError<C>>,
)
    requires
        call_ensures(witnessed_ancestry::<C>, (&block.header, &witness), found),
        call_ensures(
            stateless_validation_recovered_with_trie::<C>,
            (block, &witness),
            begun,
        ) || call_ensures(
            stateless_validation_recovered::<C>,
            (block, &witness),
            begun,
        ) || call_ensures(
            stateless_validation_with_trie::<C>,
            (Ok::<RecoveredBlock, StatelessValidationError<C>>(block), &witness),
            begun,
        ) || call_ensures(
            stateless_validation::<C>,
            (Ok::<RecoveredBlock, StatelessValidationError<C>>(block), &witness),
            begun,
        ) || call_ensures(
            begin::<WholeBlock, C>,
            (block, &witness, WholeBlock),
            begun,
        ),
    ensures
        (match (begun, found) {
            (Ok(stage), Ok(ancestry)) => {
                &&& stage.setup.block == block
                &&& stage.setup.ancestry.parent@ == ancestry.parent@
                &&& stage.setup.ancestry.hashes@ == ancestry.hashes@
                &&& stage.due == ConsensusCheck::Header
            },
            (Err(err), Err(other)) => err == other,
            _ => false,
        }),
{
}

/// However this flow is entered, the parent it begins with is the header of the witness entry whose
/// digest the block names; and its hashes are the digests of the entries, each under the number of
/// the header that the entry encodes, and no others.
pub proof fn law_beginning_gives<C>(
    block: RecoveredBlock,
    witness: ExecutionWitness,
    begun: Result<ConsensusStage<WholeBlock>, StatelessValidationError<C>>,
)
    requires
        call_ensures(
            stateless_validation_recovered_with_trie::<C>,
            (block, &witness),
            begun,
        ) || call_ensures(
            stateless_validation_recovered::<C>,
            (block, &witness),
            begun,
        ) || call_ensures(
            stateless_validation_with_trie::<C>,
            (Ok::<RecoveredBlock, StatelessValidationError<C>>(block), &witness),
            begun,
        ) || call_ensures(
            stateless_validation::<C>,
            (Ok::<RecoveredBlock, StatelessValidationError<C>>(block), &witness),
            begun,
        ) || call_ensures(
            begin::<WholeBlock, C>,
            (block, &witness, WholeBlock),
            begun,
        ),
        begun is Ok,
    ensures
        ({
            let entries = witness.headers@;
            let parent = begun->Ok_0.setup.ancestry.parent;
            let hashes = begun->Ok_0.setup.ancestry.hashes@;
            &&& parent.header.number + 1 == block.header.number
            &&& parent.hash == block.header.parent_hash
            &&& exists|i: int|
                {
                    &&& 0 <= i < entries.len()
                    &&& header_of_rlp((#[trigger] entries[i])@) == Some(parent.header@)
                    &&& keccak256_of(entries[i]@) == block.header.parent_hash
                }
            &&& forall|i: int|
                0 <= i < entries.len() ==> (header_of_rlp(
                    (#[trigger] entries[i])@,
                ) matches Some(header) && hashes.contains_key(header.number)
                    && hashes[header.number] == keccak256_of(entries[i]@))
            &&& forall|number: u64| #[trigger]
                hashes.contains_key(number) ==> exists|i: int|
                    {
                        &&& 0 <= i < entries.len()
                        &&& header_of_rlp((#[trigger] entries[i])@) matches Some(header)
                            && header.number == number
                    }
        }),
{
    lemma_found_in_witness::<C>(block.header@, witness, begun->Ok_0.setup.ancestry@);
}

/// What a validation in this flow asks the trie and hands to execution: the witness is revealed
/// against the state root of the header whose digest the block names; and the block hashes that can
/// be looked up are the digests of the witness entries, each under the number of the header that
/// the entry encodes, and no others.
pub proof fn law_execution_starts_from<C>(
    block: RecoveredBlock,
    witness: ExecutionWitness,
    stages: (ConsensusStage<WholeBlock>, ConsensusStage<WholeBlock>, ConsensusStage<WholeBlock>),
    checks: (Result<(), C>, Result<(), C>, Result<(), C>),
    trie: TrieStage<WholeBlock>,
    root: B256,
    revealed: Result<(), StatelessTrieError>,
    execution: ExecutionStage,
    looked_up: BTreeMap<u64, B256>,
)
    requires
        call_ensures(
            stateless_validation_recovered_with_trie::<C>,
            (block, &witness),
            Ok::<ConsensusStage<WholeBlock>, StatelessValidationError<C>>(stages.0),
        ),
        call_ensures(
            validate_block_consensus::<WholeBlock, C>,
            (stages.0, checks.0),
            Ok::<ConsensusProgress<WholeBlock>, StatelessValidationError<C>>(
                ConsensusProgress::Check(stages.1),
            ),
        ),
        call_ensures(
            validate_block_consensus::<WholeBlock, C>,
            (stages.1, checks.1),
            Ok::<ConsensusProgress<WholeBlock>, StatelessValidationError<C>>(
                ConsensusProgress::Check(stages.2),
            ),
        ),
        call_ensures(
            validate_block_consensus::<WholeBlock, C>,
            (stages.2, checks.2),
            Ok::<ConsensusProgress<WholeBlock>, StatelessValidationError<C>>(
                ConsensusProgress::Passed(trie),
            ),
        ),
        call_ensures(TrieStage::<WholeBlock>::pre_state_root, (&trie,), root),
        call_ensures(
            TrieStage::<WholeBlock>::witness_revealed::<C>,
            (trie, revealed),
            Ok::<ExecutionStage, StatelessValidationError<C>>(execution),
        ),
        call_ensures(ExecutionStage::ancestor_hashes, (&execution,), &looked_up),
    ensures
        ({
            let entries = witness.headers@;
            let parent = execution.setup.ancestry.parent;
            let hashes = looked_up@;
            &&& root == parent.header.state_root
            &&& execution.setup.block == block
            &&& exists|i: int|
                {
                    &&& 0 <= i < entries.len()
                    &&& header_of_rlp((#[trigger] entries[i])@) == Some(parent.header@)
                    &&& keccak256_of(entries[i]@) == block.header.parent_hash
                }
            &&& forall|i: int|
                0 <= i < entries.len() ==> (header_of_rlp(
                    (#[trigger] entries[i])@,
                ) matches Some(header) && hashes.contains_key(header.number)
                    && hashes[header.number] == keccak256_of(entries[i]@))
            &&& forall|number: u64| #[trigger]
                hashes.contains_key(number) ==> exists|i: int|
                    {
                        &&& 0 <= i < entries.len()
                        &&& header_of_rlp((#[trigger] entries[i])@) matches Some(header)
                            && header.number == number
                    }
        }),
{
    lemma_found_in_witness::<C>(block.header@, witness, stages.0.setup.ancestry@);
}

/// The reveal of the witness fails with the error of the trie, and otherwise keeps the block and
/// its ancestors.
pub proof fn law_reveal_step<C>(
    stage: TrieStage<WholeBlock>,
    reply: Result<(), StatelessTrieError>,
    next: Result<ExecutionStage, StatelessValidationError<C>>,
)
    requires
        call_ensures(TrieStage::<WholeBlock>::witness_revealed::<C>, (stage, reply), next),
    ensures
        (match (reply, next) {
            (Ok(_), Ok(execution)) => execution.setup == stage.setup,
            (Err(err), Err(failure)) => failure == trie_failure::<C>(err),
            _ => false,
        }),
{
}

/// A block whose signers could not be recovered is refused with that failure, whatever its witness.
pub proof fn law_unrecovered_block<C>(
    failure: StatelessValidationError<C>,
    witness: ExecutionWitness,
    begun: Result<ConsensusStage<WholeBlock>, StatelessValidationError<C>>,
)
    requires
        call_ensures(
            stateless_validation::<C>,
            (Err::<RecoveredBlock, StatelessValidationError<C>>(failure), &witness),
            begun,
        ) || call_ensures(
            stateless_validation_with_trie::<C>,
            (Err::<RecoveredBlock, StatelessValidationError<C>>(failure), &witness),
            begun,
        ),
    ensures
        begun is Err,
        begun->Err_0 == failure,
{
}

/// Execution fails with the reason that the executor gave, and otherwise its output is kept, with
/// the block and its ancestors.
pub proof fn law_execution_step<O, C>(
    stage: ExecutionStage,
    reply: Result<O, String>,
    next: Result<PostExecutionStage<O>, StatelessValidationError<C>>,
)
    requires
        call_ensures(ExecutionStage::block_executed::<O, C>, (stage, reply), next),
    ensures
        (match (reply, next) {
            (Ok(output), Ok(executed)) => executed.setup == stage.setup && executed.output
                == output,
            (Err(reason), Err(failure)) => failure
                == StatelessValidationError::<C>::StatelessExecutionFailed(reason),
            _ => false,
        }),
{
}

/// The consensus check on what execution gave fails with its error, and otherwise keeps the output,
/// the block and its ancestors.
pub proof fn law_post_execution_step<O, C>(
    stage: PostExecutionStage<O>,
    reply: Result<(), C>,
    next: Result<StateRootStage<O>, StatelessValidationError<C>>,
)
    requires
        call_ensures(PostExecutionStage::<O>::post_execution_validated::<C>, (stage, reply), next),
    ensures
        (match (reply, next) {
            (Ok(_), Ok(validated)) => validated.setup == stage.setup && validated.output
                == stage.output,
            (Err(err), Err(failure)) => failure
                == StatelessValidationError::ConsensusValidationFailed(err),
            _ => false,
        }),
{
}

/// The block is accepted if and only if the state root after it could be calculated and is the one
/// in its header. The output holds the digest of its header's encoding and what execution gave;
/// a wrong root is reported with the one that was expected.
pub proof fn law_state_root_decides<O, C>(
    stage: StateRootStage<O>,
    reply: Result<B256, StatelessTrieError>,
    output: Result<StatelessValidationOutput<O>, StatelessValidationError<C>>,
)
    requires
        call_ensures(StateRootStage::<O>::state_root_calculated::<C>, (stage, reply), output),
    ensures
        (match (reply, output) {
            (Ok(got), Ok(accepted)) => {
                &&& got == stage.setup.block.header.state_root
                &&& accepted.block_hash == keccak256_of(rlp_of_header(stage.setup.block.header@))
                &&& accepted.execution_output == stage.output
                &&& accepted.block_access_list is None
            },
            (Ok(got), Err(failure)) => {
                let expected = stage.setup.block.header.state_root;
                &&& got != expected
                &&& failure == StatelessValidationError::<C>::PostStateRootMismatch {
                    got,
                    expected,
                }
            },
            (Err(err), Err(failure)) => failure == trie_failure::<C>(err),
            _ => false,
        }),
{
}

/// A computed root passes if and only if it is the expected one, byte for byte.
pub proof fn law_root_check<C>(
    got: B256,
    expected: B256,
    checked: Result<(), StatelessValidationError<C>>,
)
    requires
        call_ensures(check_post_state_root::<C>, (got, expected), checked),
    ensures
        checked is Ok <==> forall|i: int| 0 <= i < 32 ==> #[trigger] got[i] == expected[i],
        (match checked {
            Ok(_) => true,
            Err(failure) => failure == StatelessValidationError::<C>::PostStateRootMismatch {
                got,
                expected,
            },
        }),
{
    if forall|i: int| 0 <= i < 32 ==> #[trigger] got[i] == expected[i] {
        assert(got =~= expected);
    }
}

} // verus!
