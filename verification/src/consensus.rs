//! The start of every validation: the ancestors, and the consensus checks that precede execution.

use crate::ancestors::found_view;
use crate::ancestors::lemma_found_in_witness;
use crate::ancestors::witnessed_ancestry;
use crate::ancestors::witnessed_ancestry_of;
use crate::ancestors::Ancestry;
use crate::ancestors::ExecutionWitness;
use crate::error::StatelessValidationError;
use crate::hash::B256;
use crate::header::Header;
use vstd::prelude::*;

verus! {

/// A block whose transaction senders are known, as far as the decisions here depend on it.
#[derive(Clone, Debug, PartialEq, Eq)]
pub struct RecoveredBlock {
    /// The block's header.
    pub header: Header,
    /// How many transactions its body holds.
    pub transaction_count: usize,
    /// How many withdrawals its body holds, if it holds a list of them.
    pub withdrawal_count: Option<usize>,
}

/// A block together with the ancestors that its witness proved.
#[derive(Debug, PartialEq, Eq)]
pub struct Setup {
    /// The block to validate.
    pub block: RecoveredBlock,
    /// Its ancestors.
    pub ancestry: Ancestry,
}

/// A check of the consensus rules that precedes execution.
#[derive(Clone, Copy, Debug, PartialEq, Eq, Structural)]
pub enum ConsensusCheck {
    /// Validate the block's header alone.
    Header,
    /// Validate the block's header against its parent's.
    HeaderAgainstParent,
    /// Validate the block's body against its header.
    BlockPreExecution,
}

/// A validation that waits for a consensus check. `F` is the flow that execution will take.
#[derive(Debug, PartialEq, Eq)]
pub struct ConsensusStage<F> {
    /// The block and its ancestors.
    pub setup: Setup,
    /// The check that is due.
    pub due: ConsensusCheck,
    /// The flow.
    pub flow: F,
}

/// A validation that has passed consensus, and waits for the trie: the witness has to be revealed
/// against the parent's state root.
#[derive(Debug, PartialEq, Eq)]
pub struct TrieStage<F> {
    /// The block and its ancestors.
    pub setup: Setup,
    /// The flow.
    pub flow: F,
}

/// Where a validation stands after a consensus check that passed.
#[derive(Debug, PartialEq, Eq)]
pub enum ConsensusProgress<F> {
    /// Another check is due.
    Check(ConsensusStage<F>),
    /// All checks have passed.
    Passed(TrieStage<F>),
}

/// What follows a consensus check: a failure ends the validation; the header is checked alone,
/// then against its parent, then the block as a whole.
pub open spec fn after_consensus_check<F, C>(
    stage: ConsensusStage<F>,
    reply: Result<(), C>,
) -> Result<ConsensusProgress<F>, StatelessValidationError<C>> {
    match reply {
        Err(err) => Err(StatelessValidationError::ConsensusValidationFailed(err)),
        Ok(_) => match stage.due {
            ConsensusCheck::Header => Ok(
                ConsensusProgress::Check(
                    ConsensusStage { due: ConsensusCheck::HeaderAgainstParent, ..stage },
                ),
            ),
            ConsensusCheck::HeaderAgainstParent => Ok(
                ConsensusProgress::Check(
                    ConsensusStage { due: ConsensusCheck::BlockPreExecution, ..stage },
                ),
            ),
            ConsensusCheck::BlockPreExecution => Ok(
                ConsensusProgress::Passed(TrieStage { setup: stage.setup, flow: stage.flow }),
            ),
        },
    }
}

/// Takes the reply to the consensus check that was due.
pub fn validate_block_consensus<F, C>(
    stage: ConsensusStage<F>,
    reply: Result<(), C>,
) -> (progress: Result<ConsensusProgress<F>, StatelessValidationError<C>>)
    ensures
        progress == after_consensus_check(stage, reply),
{
    match reply {
        Err(err) => Err(StatelessValidationError::ConsensusValidationFailed(err)),
        Ok(_) => match stage.due {
            ConsensusCheck::Header => Ok(
                ConsensusProgress::Check(
                    ConsensusStage {
                        setup: stage.setup,
                        due: ConsensusCheck::HeaderAgainstParent,
                        flow: stage.flow,
                    },
                ),
            ),
            ConsensusCheck::HeaderAgainstParent => Ok(
                ConsensusProgress::Check(
                    ConsensusStage {
                        setup: stage.setup,
                        due: ConsensusCheck::BlockPreExecution,
                        flow: stage.flow,
                    },
                ),
            ),
            ConsensusCheck::BlockPreExecution => Ok(
                ConsensusProgress::Passed(TrieStage { setup: stage.setup, flow: stage.flow }),
            ),
        },
    }
}

impl<F> TrieStage<F> {
    /// The state root against which the witness has to be revealed: the parent's.
    pub fn pre_state_root(&self) -> (root: B256)
        ensures
            root == self.setup.ancestry.parent.header.state_root,
    {
        self.setup.ancestry.parent.header.state_root
    }
}

/// `begun` is how the validation of `block` begins: its witness is refused, or the header check is
/// due on what the witness proved.
pub open spec fn begins<F, C>(
    block: RecoveredBlock,
    encoded: Seq<Seq<u8>>,
    flow: F,
    begun: Result<ConsensusStage<F>, StatelessValidationError<C>>,
) -> bool {
    match begun {
        Ok(stage) => {
            &&& witnessed_ancestry_of::<C>(block.header@, encoded) == found_view::<C>(
                Ok(stage.setup.ancestry),
            )
            &&& stage.setup.block == block
            &&& stage.due == ConsensusCheck::Header
            &&& stage.flow == flow
        },
        Err(err) => witnessed_ancestry_of::<C>(block.header@, encoded) == found_view::<C>(Err(err)),
    }
}

/// Begins a validation in the given flow.
pub fn begin<F, C>(block: RecoveredBlock, witness: &ExecutionWitness, flow: F) -> (begun: Result<
    ConsensusStage<F>,
    StatelessValidationError<C>,
>)
    ensures
        begins(block, witness@, flow, begun),
{
    match witnessed_ancestry::<C>(&block.header, witness) {
        Ok(ancestry) => Ok(
            ConsensusStage {
                setup: Setup { block, ancestry },
                due: ConsensusCheck::Header,
                flow,
            },
        ),
        Err(err) => Err(err),
    }
}

/// Where a validation stands once the checks that come due have had these replies, in turn;
/// `None` while a check is still due.
pub open spec fn consensus_outcome<F, C>(
    stage: ConsensusStage<F>,
    replies: Seq<Result<(), C>>,
) -> Option<Result<TrieStage<F>, StatelessValidationError<C>>>
    decreases replies.len(),
{
    if replies.len() == 0 {
        None
    } else {
        match after_consensus_check(stage, replies.first()) {
            Ok(ConsensusProgress::Check(next)) => consensus_outcome(next, replies.drop_first()),
            Ok(ConsensusProgress::Passed(trie)) => Some(Ok(trie)),
            Err(err) => Some(Err(err)),
        }
    }
}

/// A validation passes consensus by three checks, no fewer; the first that fails decides, and its
/// error is reported.
pub proof fn law_consensus_takes_three_checks<F, C>(
    stage: ConsensusStage<F>,
    replies: Seq<Result<(), C>>,
)
    requires
        stage.due == ConsensusCheck::Header,
    ensures
        consensus_outcome(stage, replies) == if replies.len() > 0 && replies[0] is Err {
            Some(Err(StatelessValidationError::ConsensusValidationFailed(replies[0]->Err_0)))
        } else if replies.len() > 1 && replies[1] is Err {
            Some(Err(StatelessValidationError::ConsensusValidationFailed(replies[1]->Err_0)))
        } else if replies.len() > 2 && replies[2] is Err {
            Some(Err(StatelessValidationError::ConsensusValidationFailed(replies[2]->Err_0)))
        } else if replies.len() > 2 {
            Some(Ok(TrieStage { setup: stage.setup, flow: stage.flow }))
        } else {
            None::<Result<TrieStage<F>, StatelessValidationError<C>>>
        },
{
    reveal_with_fuel(consensus_outcome, 4);
}

/// Every flow begins alike: it refuses the same witnesses with the same errors, and otherwise
/// takes the same block and ancestors to the same check.
pub proof fn law_flows_begin_alike<F, G, C>(
    block: RecoveredBlock,
    encoded: Seq<Seq<u8>>,
    flow: F,
    other: G,
    begun: Result<ConsensusStage<F>, StatelessValidationError<C>>,
    other_begun: Result<ConsensusStage<G>, StatelessValidationError<C>>,
)
    requires
        begins(block, encoded, flow, begun),
        begins(block, encoded, other, other_begun),
    ensures
        match (begun, other_begun) {
            (Ok(stage), Ok(other_stage)) => {
                &&& stage.setup.block == other_stage.setup.block
                &&& stage.setup.ancestry@ == other_stage.setup.ancestry@
                &&& stage.due == other_stage.due
            },
            (Err(err), Err(other_err)) => err == other_err,
            _ => false,
        },
{
}

/// A consensus check that fails ends the validation with its error. One that passes leads on: from
/// the header alone to the header against its parent, from there to the block, and from there past
/// consensus. The block, its ancestors and the flow stay the same throughout.
pub proof fn law_consensus_step<F, C>(
    stage: ConsensusStage<F>,
    reply: Result<(), C>,
    progress: Result<ConsensusProgress<F>, StatelessValidationError<C>>,
)
    requires
        call_ensures(validate_block_consensus::<F, C>, (stage, reply), progress),
    ensures
        (match (reply, progress) {
            (Err(err), Err(failure)) => failure
                == StatelessValidationError::ConsensusValidationFailed(err),
            (Ok(_), Ok(ConsensusProgress::Check(next))) => {
                &&& next.setup == stage.setup
                &&& next.flow == stage.flow
                &&& stage.due != ConsensusCheck::BlockPreExecution
                &&& stage.due == ConsensusCheck::Header ==> next.due
                    == ConsensusCheck::HeaderAgainstParent
                &&& stage.due == ConsensusCheck::HeaderAgainstParent ==> next.due
                    == ConsensusCheck::BlockPreExecution
            },
            (Ok(_), Ok(ConsensusProgress::Passed(trie))) => {
                &&& trie.setup == stage.setup
                &&& trie.flow == stage.flow
                &&& stage.due == ConsensusCheck::BlockPreExecution
            },
            _ => false,
        }),
{
}

/// On the way past consensus the header is checked alone, then against the header of its parent,
/// then the block as a whole, and all three checks see the block and the ancestors with which the
/// validation began.
pub proof fn law_consensus_run<F, C>(
    block: RecoveredBlock,
    witness: ExecutionWitness,
    flow: F,
    first: ConsensusStage<F>,
    second: ConsensusStage<F>,
    third: ConsensusStage<F>,
    trie: TrieStage<F>,
    replies: (Result<(), C>, Result<(), C>, Result<(), C>),
)
    requires
        call_ensures(
            begin::<F, C>,
            (block, &witness, flow),
            Ok::<ConsensusStage<F>, StatelessValidationError<C>>(first),
        ),
        call_ensures(
            validate_block_consensus::<F, C>,
            (first, replies.0),
            Ok::<ConsensusProgress<F>, StatelessValidationError<C>>(
                ConsensusProgress::Check(second),
            ),
        ),
        call_ensures(
            validate_block_consensus::<F, C>,
            (second, replies.1),
            Ok::<ConsensusProgress<F>, StatelessValidationError<C>>(
                ConsensusProgress::Check(third),
            ),
        ),
        call_ensures(
            validate_block_consensus::<F, C>,
            (third, replies.2),
            Ok::<ConsensusProgress<F>, StatelessValidationError<C>>(
                ConsensusProgress::Passed(trie),
            ),
        ),
    ensures
        first.due == ConsensusCheck::Header,
        second.due == ConsensusCheck::HeaderAgainstParent,
        third.due == ConsensusCheck::BlockPreExecution,
        first.setup.block == block,
        second.setup.block == block,
        third.setup.block == block,
        trie.setup.block == block,
        second.setup.ancestry == first.setup.ancestry,
        third.setup.ancestry == first.setup.ancestry,
        trie.setup.ancestry == first.setup.ancestry,
        second.setup.ancestry.parent.header.number + 1 == second.setup.block.header.number,
        second.setup.ancestry.parent.hash == second.setup.block.header.parent_hash,
        trie.flow == flow,
        replies.0 is Ok && replies.1 is Ok && replies.2 is Ok,
{
    lemma_found_in_witness::<C>(block.header@, witness, first.setup.ancestry@);
}

/// The witness is revealed against the state root of the parent that the validation found.
pub proof fn law_pre_state_root<F>(trie: TrieStage<F>, root: B256)
    requires
        call_ensures(TrieStage::<F>::pre_state_root, (&trie,), root),
    ensures
        root == trie.setup.ancestry.parent.header.state_root,
{
}

} // verus!
