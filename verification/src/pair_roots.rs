//! Validation of a block transaction by transaction, with the state root after each.
//!
//! A snapshot between two transactions leaves out what happens after the last of them
//! (withdrawals, execution requests). The roots are handed out only for blocks where nothing of
//! that kind happens, and there the last of them has to be the state root in the header. For the
//! others the list is empty, and the header is held against the state root of the finished block.

use crate::ancestors::decoded_ancestors;
use crate::ancestors::follows;
use crate::ancestors::law_ancestry;
use crate::ancestors::lemma_found_in_witness;
use crate::ancestors::witnessed_ancestry;
use crate::ancestors::witnessed_ancestry_of;
use crate::ancestors::Ancestry;
use crate::ancestors::ExecutionWitness;
use crate::codec::header_of_rlp;
use crate::codec::keccak256_of;
use crate::codec::rlp_of_header;
use crate::consensus::begin;
use crate::consensus::begins;
use crate::consensus::consensus_outcome;
use crate::consensus::law_consensus_takes_three_checks;
use crate::consensus::validate_block_consensus;
use crate::consensus::ConsensusCheck;
use crate::consensus::ConsensusProgress;
use crate::consensus::ConsensusStage;
use crate::consensus::RecoveredBlock;
use crate::consensus::Setup;
use crate::consensus::TrieStage;
use crate::error::trie_failure;
use crate::error::StatelessTrieError;
use crate::error::StatelessValidationError;
use crate::hash::B256;
use crate::validation::check_post_state_root;
use crate::validation::whole_block_outcome;
use crate::validation::StatelessValidationOutput;
use crate::validation::WholeBlock;
use crate::validation::WholeBlockReplies;
use std::collections::BTreeMap;
use vstd::prelude::*;

verus! {

/// The flow in which a block is executed transaction by transaction.
#[derive(Clone, Copy, Debug, PartialEq, Eq, Structural)]
pub struct PairRoots;

/// A transaction receipt, as far as the decisions here depend on it.
#[derive(Clone, Copy, Debug, PartialEq, Eq, Structural)]
pub struct Receipt {
    /// Whether the transaction succeeded.
    pub success: bool,
}

/// What the executor hands over once the block is finished.
#[derive(Clone, Debug, PartialEq, Eq)]
pub struct FinishedBlock {
    /// The receipts, in the order of the transactions.
    pub receipts: Vec<Receipt>,
    /// How many execution requests the block made.
    pub request_count: usize,
}

/// A validation that waits for an executor of the block.
#[derive(Debug, PartialEq, Eq)]
pub struct ExecutorStage {
    /// The block and its ancestors.
    pub setup: Setup,
}

/// A validation that waits for the changes that precede the first transaction.
#[derive(Debug, PartialEq, Eq)]
pub struct PreExecutionStage {
    /// The block and its ancestors.
    pub setup: Setup,
}

/// A validation that waits for the state root before the first transaction.
#[derive(Debug, PartialEq, Eq)]
pub struct PreExecutionRootStage {
    /// The block and its ancestors.
    pub setup: Setup,
}

/// The state roots of a block that is being executed.
#[derive(Debug, PartialEq, Eq)]
pub struct Roots {
    /// The state root before the first transaction.
    pub pre_execution: B256,
    /// The state roots after each transaction executed so far.
    pub transactions: Vec<B256>,
}

/// The value of [`Roots`].
pub struct RootsView {
    pub pre_execution: B256,
    pub transactions: Seq<B256>,
}

impl View for Roots {
    type V = RootsView;

    open spec fn view(&self) -> RootsView {
        RootsView { pre_execution: self.pre_execution, transactions: self.transactions@ }
    }
}

/// A block that is being executed, with the state roots so far.
pub struct ExecutedView {
    pub setup: Setup,
    pub roots: RootsView,
}

/// A validation that waits for the execution of the next transaction.
#[derive(Debug, PartialEq, Eq)]
pub struct TransactionStage {
    /// The block and its ancestors.
    pub setup: Setup,
    /// The state roots so far.
    pub roots: Roots,
}

/// A validation that waits for the state root after the transaction just executed.
#[derive(Debug, PartialEq, Eq)]
pub struct TransactionRootStage {
    /// The block and its ancestors.
    pub setup: Setup,
    /// The state roots before that transaction.
    pub roots: Roots,
}

/// A validation that waits for the executor to finish the block.
#[derive(Debug, PartialEq, Eq)]
pub struct FinishStage {
    /// The block and its ancestors.
    pub setup: Setup,
    /// The state roots.
    pub roots: Roots,
}

/// A validation that waits for the consensus check on what execution gave.
#[derive(Debug, PartialEq, Eq)]
pub struct PairRootsPostExecutionStage {
    /// The block and its ancestors.
    pub setup: Setup,
    /// The state roots.
    pub roots: Roots,
    /// What the executor handed over.
    pub finished: FinishedBlock,
}

/// What is due once a state root is known.
#[derive(Debug, PartialEq, Eq)]
pub enum BlockProgress {
    /// Another transaction.
    Execute(TransactionStage),
    /// All transactions have been executed.
    Finish(FinishStage),
}

/// Begins to validate an already-recovered block transaction by transaction.
pub fn stateless_validation_recovered_with_pair_roots<C>(
    block: RecoveredBlock,
    witness: &ExecutionWitness,
) -> (begun: Result<ConsensusStage<PairRoots>, StatelessValidationError<C>>)
    ensures
        begins(block, witness@, PairRoots, begun),
{
    begin(block, witness, PairRoots)
}

/// What follows the reveal of the witness.
pub open spec fn after_reveal<C>(
    stage: TrieStage<PairRoots>,
    reply: Result<(), StatelessTrieError>,
) -> Result<ExecutorStage, StatelessValidationError<C>> {
    match reply {
        Ok(_) => Ok(ExecutorStage { setup: stage.setup }),
        Err(err) => Err(trie_failure(err)),
    }
}

impl TrieStage<PairRoots> {
    /// Takes the reply of the trie to the reveal of the witness.
    pub fn witness_revealed<C>(self, reply: Result<(), StatelessTrieError>) -> (next: Result<
        ExecutorStage,
        StatelessValidationError<C>,
    >)
        ensures
            next == after_reveal::<C>(self, reply),
    {
        match reply {
            Ok(_) => Ok(ExecutorStage { setup: self.setup }),
            Err(err) => Err(StatelessValidationError::from(err)),
        }
    }
}

/// What follows the making of an executor.
pub open spec fn after_executor<C>(stage: ExecutorStage, reply: Result<(), String>) -> Result<
    PreExecutionStage,
    StatelessValidationError<C>,
> {
    match reply {
        Ok(_) => Ok(PreExecutionStage { setup: stage.setup }),
        Err(err) => Err(StatelessValidationError::StatelessExecutionFailed(err)),
    }
}

impl ExecutorStage {
    /// The block hashes that execution may look up.
    pub fn ancestor_hashes(&self) -> (hashes: &BTreeMap<u64, B256>)
        ensures
            *hashes == self.setup.ancestry.hashes,
    {
        &self.setup.ancestry.hashes
    }

    /// Takes word whether an executor of the block could be made.
    pub fn executor_made<C>(self, reply: Result<(), String>) -> (next: Result<
        PreExecutionStage,
        StatelessValidationError<C>,
    >)
        ensures
            next == after_executor::<C>(self, reply),
    {
        match reply {
            Ok(_) => Ok(PreExecutionStage { setup: self.setup }),
            Err(err) => Err(StatelessValidationError::StatelessExecutionFailed(err)),
        }
    }
}

/// What follows the changes that precede the first transaction.
pub open spec fn after_pre_execution<C>(
    stage: PreExecutionStage,
    reply: Result<(), String>,
) -> Result<PreExecutionRootStage, StatelessValidationError<C>> {
    match reply {
        Ok(_) => Ok(PreExecutionRootStage { setup: stage.setup }),
        Err(err) => Err(StatelessValidationError::StatelessExecutionFailed(err)),
    }
}

impl PreExecutionStage {
    /// Takes word whether the changes that precede the first transaction could be applied.
    pub fn pre_execution_applied<C>(self, reply: Result<(), String>) -> (next: Result<
        PreExecutionRootStage,
        StatelessValidationError<C>,
    >)
        ensures
            next == after_pre_execution::<C>(self, reply),
    {
        match reply {
            Ok(_) => Ok(PreExecutionRootStage { setup: self.setup }),
            Err(err) => Err(StatelessValidationError::StatelessExecutionFailed(err)),
        }
    }
}

/// The value of a [`BlockProgress`].
pub enum ProgressView {
    Execute(ExecutedView),
    Finish(ExecutedView),
}

impl View for BlockProgress {
    type V = ProgressView;

    open spec fn view(&self) -> ProgressView {
        match *self {
            BlockProgress::Execute(stage) => ProgressView::Execute(stage@),
            BlockProgress::Finish(stage) => ProgressView::Finish(stage@),
        }
    }
}

impl View for TransactionStage {
    type V = ExecutedView;

    open spec fn view(&self) -> ExecutedView {
        ExecutedView { setup: self.setup, roots: self.roots@ }
    }
}

impl View for TransactionRootStage {
    type V = ExecutedView;

    open spec fn view(&self) -> ExecutedView {
        ExecutedView { setup: self.setup, roots: self.roots@ }
    }
}

impl View for FinishStage {
    type V = ExecutedView;

    open spec fn view(&self) -> ExecutedView {
        ExecutedView { setup: self.setup, roots: self.roots@ }
    }
}

/// The value of what a stage leads to.
pub open spec fn next_view<S: View, C>(next: Result<S, StatelessValidationError<C>>) -> Result<
    S::V,
    StatelessValidationError<C>,
> {
    match next {
        Ok(stage) => Ok(stage@),
        Err(err) => Err(err),
    }
}

/// What is due on a block: one transaction for each that has no root yet.
pub open spec fn due(executed: ExecutedView) -> ProgressView {
    if executed.roots.transactions.len() < executed.setup.block.transaction_count {
        ProgressView::Execute(executed)
    } else {
        ProgressView::Finish(executed)
    }
}

/// Decides what is due with these roots.
fn progress(setup: Setup, roots: Roots) -> (progress: BlockProgress)
    ensures
        progress@ == due(ExecutedView { setup, roots: roots@ }),
{
    if roots.transactions.len() < setup.block.transaction_count {
        BlockProgress::Execute(TransactionStage { setup, roots })
    } else {
        BlockProgress::Finish(FinishStage { setup, roots })
    }
}

/// What follows the state root before the first transaction.
pub open spec fn after_pre_execution_root<C>(
    stage: PreExecutionRootStage,
    reply: Result<B256, StatelessTrieError>,
) -> Result<ProgressView, StatelessValidationError<C>> {
    match reply {
        Ok(root) => Ok(
            due(
                ExecutedView {
                    setup: stage.setup,
                    roots: RootsView { pre_execution: root, transactions: seq![] },
                },
            ),
        ),
        Err(err) => Err(trie_failure(err)),
    }
}

impl PreExecutionRootStage {
    /// Every snapshot starts from a fresh trie at this root: the parent's.
    pub fn pre_state_root(&self) -> (root: B256)
        ensures
            root == self.setup.ancestry.parent.header.state_root,
    {
        self.setup.ancestry.parent.header.state_root
    }

    /// Takes the state root before the first transaction.
    pub fn root_calculated<C>(self, reply: Result<B256, StatelessTrieError>) -> (next: Result<
        BlockProgress,
        StatelessValidationError<C>,
    >)
        ensures
            next_view(next) == after_pre_execution_root::<C>(self, reply),
    {
        match reply {
            Ok(root) => {
                let roots = Roots { pre_execution: root, transactions: Vec::new() };
                assert(roots.transactions@ =~= seq![]);
                Ok(progress(self.setup, roots))
            },
            Err(err) => Err(StatelessValidationError::from(err)),
        }
    }
}

/// What follows the execution of a transaction.
pub open spec fn after_transaction<C>(
    executed: ExecutedView,
    reply: Result<(), String>,
) -> Result<ExecutedView, StatelessValidationError<C>> {
    match reply {
        Ok(_) => Ok(executed),
        Err(err) => Err(StatelessValidationError::StatelessExecutionFailed(err)),
    }
}

impl TransactionStage {
    /// The position in the block of the transaction that is due.
    pub fn index(&self) -> (index: usize)
        ensures
            index == self.roots.transactions@.len(),
    {
        self.roots.transactions.len()
    }

    /// Takes word whether the transaction could be executed.
    pub fn transaction_executed<C>(self, reply: Result<(), String>) -> (next: Result<
        TransactionRootStage,
        StatelessValidationError<C>,
    >)
        ensures
            next_view(next) == after_transaction::<C>(self@, reply),
    {
        match reply {
            Ok(_) => Ok(TransactionRootStage { setup: self.setup, roots: self.roots }),
            Err(err) => Err(StatelessValidationError::StatelessExecutionFailed(err)),
        }
    }
}

/// What follows the state root after a transaction.
pub open spec fn after_transaction_root<C>(
    executed: ExecutedView,
    reply: Result<B256, StatelessTrieError>,
) -> Result<ProgressView, StatelessValidationError<C>> {
    match reply {
        Ok(root) => Ok(
            due(
                ExecutedView {
                    setup: executed.setup,
                    roots: RootsView {
                        pre_execution: executed.roots.pre_execution,
                        transactions: executed.roots.transactions.push(root),
                    },
                },
            ),
        ),
        Err(err) => Err(trie_failure(err)),
    }
}

impl TransactionRootStage {
    /// Every snapshot starts from a fresh trie at this root: the parent's.
    pub fn pre_state_root(&self) -> (root: B256)
        ensures
            root == self.setup.ancestry.parent.header.state_root,
    {
        self.setup.ancestry.parent.header.state_root
    }

    /// Takes the state root after the transaction.
    pub fn root_calculated<C>(self, reply: Result<B256, StatelessTrieError>) -> (next: Result<
        BlockProgress,
        StatelessValidationError<C>,
    >)
        ensures
            next_view(next) == after_transaction_root::<C>(self@, reply),
    {
        match reply {
            Ok(root) => {
                let mut transactions = self.roots.transactions;
                transactions.push(root);
                let roots = Roots { pre_execution: self.roots.pre_execution, transactions };
                Ok(progress(self.setup, roots))
            },
            Err(err) => Err(StatelessValidationError::from(err)),
        }
    }
}

/// A block that has been executed, with what the executor handed over.
pub struct FinishedView {
    pub executed: ExecutedView,
    pub receipts: Seq<Receipt>,
    pub request_count: usize,
}

impl View for PairRootsPostExecutionStage {
    type V = FinishedView;

    open spec fn view(&self) -> FinishedView {
        FinishedView {
            executed: ExecutedView { setup: self.setup, roots: self.roots@ },
            receipts: self.finished.receipts@,
            request_count: self.finished.request_count,
        }
    }
}

/// What follows the end of the block.
pub open spec fn after_finish<C>(
    executed: ExecutedView,
    reply: Result<FinishedBlock, String>,
) -> Result<FinishedView, StatelessValidationError<C>> {
    match reply {
        Ok(finished) => Ok(
            FinishedView {
                executed,
                receipts: finished.receipts@,
                request_count: finished.request_count,
            },
        ),
        Err(err) => Err(StatelessValidationError::StatelessExecutionFailed(err)),
    }
}

impl FinishStage {
    /// Takes what the executor handed over.
    pub fn block_finished<C>(self, reply: Result<FinishedBlock, String>) -> (next: Result<
        PairRootsPostExecutionStage,
        StatelessValidationError<C>,
    >)
        ensures
            next_view(next) == after_finish::<C>(self@, reply),
    {
        match reply {
            Ok(finished) => Ok(
                PairRootsPostExecutionStage { setup: self.setup, roots: self.roots, finished },
            ),
            Err(err) => Err(StatelessValidationError::StatelessExecutionFailed(err)),
        }
    }
}

/// The last snapshot of the execution: the state root after the last transaction, or without any,
/// that after the changes that precede the first.
pub open spec fn last_snapshot(roots: RootsView) -> B256 {
    if roots.transactions.len() == 0 {
        roots.pre_execution
    } else {
        roots.transactions.last()
    }
}

/// The last snapshot of the execution.
pub fn final_root(roots: &Roots) -> (root: B256)
    ensures
        root == last_snapshot(roots@),
{
    let count: usize = roots.transactions.len();
    if count == 0 {
        roots.pre_execution
    } else {
        roots.transactions[count - 1]
    }
}

/// Whether each transaction succeeded, by the receipts.
pub open spec fn statuses_of(receipts: Seq<Receipt>) -> Seq<bool> {
    receipts.map_values(|receipt: Receipt| receipt.success)
}

/// Lists whether each transaction succeeded.
pub fn transaction_statuses(receipts: &Vec<Receipt>) -> (statuses: Vec<bool>)
    ensures
        statuses@ == statuses_of(receipts@),
{
    let mut statuses: Vec<bool> = Vec::new();
    let mut i: usize = 0;
    while i < receipts.len()
        invariant
            i <= receipts.len(),
            statuses@ == statuses_of(receipts@.take(i as int)),
        decreases receipts.len() - i,
    {
        statuses.push(receipts[i].success);
        i += 1;
        assert(statuses@ =~= statuses_of(receipts@.take(i as int)));
    }
    assert(receipts@.take(i as int) =~= receipts@);
    statuses
}

/// The block leaves nothing for after its last transaction: it makes no execution requests and has
/// no withdrawals.
pub open spec fn ends_with_transactions(block: RecoveredBlock, request_count: usize) -> bool {
    &&& request_count == 0
    &&& match block.withdrawal_count {
        Some(count) => count == 0,
        None => true,
    }
}

/// Whether the block leaves nothing for after its last transaction.
pub fn nothing_follows_transactions(block: &RecoveredBlock, request_count: usize) -> (nothing: bool)
    ensures
        nothing == ends_with_transactions(*block, request_count),
{
    let withdrawals_empty = match block.withdrawal_count {
        Some(count) => count == 0,
        None => true,
    };
    request_count == 0 && withdrawals_empty
}

/// The roots after each transaction, where they are sound to hand out; none otherwise.
pub open spec fn sound_roots_of(
    block: RecoveredBlock,
    request_count: usize,
    transactions: Seq<B256>,
) -> Seq<B256> {
    if ends_with_transactions(block, request_count) {
        transactions
    } else {
        seq![]
    }
}

/// What a validation transaction by transaction gives: the block's hash, the roots after each
/// transaction, and whether each succeeded.
pub struct PairRootsView {
    pub block_hash: B256,
    pub transaction_roots: Seq<B256>,
    pub statuses: Seq<bool>,
}

/// The value of what a validation concludes.
pub open spec fn concluded_view<C>(
    concluded: Result<(B256, Vec<B256>, Vec<bool>), StatelessValidationError<C>>,
) -> Result<PairRootsView, StatelessValidationError<C>> {
    match concluded {
        Ok((block_hash, transaction_roots, statuses)) => Ok(
            PairRootsView {
                block_hash,
                transaction_roots: transaction_roots@,
                statuses: statuses@,
            },
        ),
        Err(err) => Err(err),
    }
}

/// A validation that waits for the state root of the finished block: something happened after the
/// last transaction, so that no snapshot of the execution is that root.
#[derive(Debug, PartialEq, Eq)]
pub struct EndpointRootStage {
    /// The block and its ancestors.
    pub setup: Setup,
    /// Whether each transaction succeeded.
    pub statuses: Vec<bool>,
}

/// The value of an [`EndpointRootStage`].
pub struct EndpointView {
    pub setup: Setup,
    pub statuses: Seq<bool>,
}

impl View for EndpointRootStage {
    type V = EndpointView;

    open spec fn view(&self) -> EndpointView {
        EndpointView { setup: self.setup, statuses: self.statuses@ }
    }
}

/// Where a validation stands after the consensus check on what execution gave.
#[derive(Debug, PartialEq, Eq)]
pub enum PairRootsProgress {
    /// The block is accepted: its hash, the roots after each transaction, and whether each
    /// succeeded.
    Accepted((B256, Vec<B256>, Vec<bool>)),
    /// The state root of the finished block is due.
    Endpoint(EndpointRootStage),
}

/// The value of a [`PairRootsProgress`].
pub enum PairRootsProgressView {
    Accepted(PairRootsView),
    Endpoint(EndpointView),
}

impl View for PairRootsProgress {
    type V = PairRootsProgressView;

    open spec fn view(&self) -> PairRootsProgressView {
        match *self {
            PairRootsProgress::Accepted((block_hash, transaction_roots, statuses)) => {
                PairRootsProgressView::Accepted(
                    PairRootsView {
                        block_hash,
                        transaction_roots: transaction_roots@,
                        statuses: statuses@,
                    },
                )
            },
            PairRootsProgress::Endpoint(stage) => PairRootsProgressView::Endpoint(stage@),
        }
    }
}

/// What the consensus check on what execution gave decides. The check comes before any state
/// root. A block that leaves nothing for after its last transaction is judged by the last
/// snapshot; of any other, the state root of the finished block is asked for.
pub open spec fn after_post_execution<C>(
    finished: FinishedView,
    reply: Result<(), C>,
) -> Result<PairRootsProgressView, StatelessValidationError<C>> {
    let setup = finished.executed.setup;
    let block = setup.block;
    let roots = finished.executed.roots;
    let statuses = statuses_of(finished.receipts);
    match reply {
        Err(err) => Err(StatelessValidationError::ConsensusValidationFailed(err)),
        Ok(_) => if !ends_with_transactions(block, finished.request_count) {
            Ok(PairRootsProgressView::Endpoint(EndpointView { setup, statuses }))
        } else if last_snapshot(roots) != block.header.state_root {
            Err(
                StatelessValidationError::PostStateRootMismatch {
                    got: last_snapshot(roots),
                    expected: block.header.state_root,
                },
            )
        } else {
            Ok(
                PairRootsProgressView::Accepted(
                    PairRootsView {
                        block_hash: block.header@.block_hash(),
                        transaction_roots: roots.transactions,
                        statuses,
                    },
                ),
            )
        },
    }
}

impl PairRootsPostExecutionStage {
    /// Takes the reply to the consensus check on what execution gave. Concludes the validation of
    /// a block that leaves nothing for after its last transaction: the block's hash, the roots
    /// after each transaction, and whether each succeeded.
    pub fn post_execution_validated<C>(self, reply: Result<(), C>) -> (progress: Result<
        PairRootsProgress,
        StatelessValidationError<C>,
    >)
        ensures
            next_view(progress) == after_post_execution::<C>(self@, reply),
    {
        if let Err(err) = reply {
            return Err(StatelessValidationError::ConsensusValidationFailed(err));
        }
        let statuses = transaction_statuses(&self.finished.receipts);
        if !nothing_follows_transactions(&self.setup.block, self.finished.request_count) {
            return Ok(
                PairRootsProgress::Endpoint(EndpointRootStage { setup: self.setup, statuses }),
            );
        }
        let got = final_root(&self.roots);
        if let Err(err) = check_post_state_root::<C>(got, self.setup.block.header.state_root) {
            return Err(err);
        }
        let block_hash = self.setup.block.header.hash_slow();
        Ok(PairRootsProgress::Accepted((block_hash, self.roots.transactions, statuses)))
    }
}

/// What the state root of the finished block decides. No roots are handed out.
pub open spec fn after_endpoint_root<C>(
    stage: EndpointView,
    reply: Result<B256, StatelessTrieError>,
) -> Result<PairRootsView, StatelessValidationError<C>> {
    let header = stage.setup.block.header@;
    match reply {
        Err(err) => Err(trie_failure(err)),
        Ok(got) => if got == header.state_root {
            Ok(
                PairRootsView {
                    block_hash: header.block_hash(),
                    transaction_roots: seq![],
                    statuses: stage.statuses,
                },
            )
        } else {
            Err(
                StatelessValidationError::PostStateRootMismatch {
                    got,
                    expected: header.state_root,
                },
            )
        },
    }
}

impl EndpointRootStage {
    /// Every snapshot starts from a fresh trie at this root: the parent's.
    pub fn pre_state_root(&self) -> (root: B256)
        ensures
            root == self.setup.ancestry.parent.header.state_root,
    {
        self.setup.ancestry.parent.header.state_root
    }

    /// Takes the state root of the finished block, and concludes the validation: the block's hash,
    /// no roots, and whether each transaction succeeded.
    pub fn root_calculated<C>(self, reply: Result<B256, StatelessTrieError>) -> (concluded: Result<
        (B256, Vec<B256>, Vec<bool>),
        StatelessValidationError<C>,
    >)
        ensures
            concluded_view(concluded) == after_endpoint_root::<C>(self@, reply),
    {
        let got = match reply {
            Ok(got) => got,
            Err(err) => {
                return Err(StatelessValidationError::from(err));
            },
        };
        if let Err(err) = check_post_state_root::<C>(got, self.setup.block.header.state_root) {
            return Err(err);
        }
        let transaction_roots: Vec<B256> = Vec::new();
        assert(transaction_roots@ =~= seq![]);
        Ok((self.setup.block.header.hash_slow(), transaction_roots, self.statuses))
    }
}

/// What the caller answers for one transaction: whether it could be executed, and the state root
/// after it.
pub struct TransactionReplies {
    pub execution: Result<(), String>,
    pub root: Result<B256, StatelessTrieError>,
}

/// What the caller answers in a validation transaction by transaction.
pub struct PairRootsReplies<C> {
    pub header: Result<(), C>,
    pub header_against_parent: Result<(), C>,
    pub block_pre_execution: Result<(), C>,
    pub reveal: Result<(), StatelessTrieError>,
    pub executor: Result<(), String>,
    pub pre_execution: Result<(), String>,
    pub pre_execution_root: Result<B256, StatelessTrieError>,
    pub transactions: Seq<TransactionReplies>,
    pub finish: Result<FinishedBlock, String>,
    pub post_execution: Result<(), C>,
    pub endpoint_root: Result<B256, StatelessTrieError>,
}

/// What the transactions of a block come to with these replies; `None` while one is still due.
pub open spec fn transactions_outcome<C>(
    progress: ProgressView,
    replies: Seq<TransactionReplies>,
) -> Option<Result<ExecutedView, StatelessValidationError<C>>>
    decreases replies.len(),
{
    match progress {
        ProgressView::Finish(executed) => Some(Ok(executed)),
        ProgressView::Execute(executed) => if replies.len() == 0 {
            None
        } else {
            match after_transaction::<C>(executed, replies.first().execution) {
                Err(err) => Some(Err(err)),
                Ok(executed) => match after_transaction_root::<C>(executed, replies.first().root) {
                    Err(err) => Some(Err(err)),
                    Ok(next) => transactions_outcome(next, replies.drop_first()),
                },
            }
        },
    }
}

/// What a validation transaction by transaction comes to with these replies. A reply after the
/// first failure is never asked for, nor the root of the finished block where nothing happens after
/// the last transaction. `None` where there are fewer replies than transactions.
pub open spec fn pair_roots_outcome<C>(
    stage: ConsensusStage<PairRoots>,
    replies: PairRootsReplies<C>,
) -> Option<Result<PairRootsView, StatelessValidationError<C>>> {
    let checks = seq![
        replies.header,
        replies.header_against_parent,
        replies.block_pre_execution,
    ];
    match consensus_outcome(stage, checks) {
        None => None,
        Some(Err(err)) => Some(Err(err)),
        Some(Ok(trie)) => match after_reveal::<C>(trie, replies.reveal) {
            Err(err) => Some(Err(err)),
            Ok(executor) => match after_executor::<C>(executor, replies.executor) {
                Err(err) => Some(Err(err)),
                Ok(made) => match after_pre_execution::<C>(made, replies.pre_execution) {
                    Err(err) => Some(Err(err)),
                    Ok(applied) => executed_outcome(applied, replies),
                },
            },
        },
    }
}

/// What such a validation comes to from the state root before the first transaction on.
pub open spec fn executed_outcome<C>(
    stage: PreExecutionRootStage,
    replies: PairRootsReplies<C>,
) -> Option<Result<PairRootsView, StatelessValidationError<C>>> {
    match after_pre_execution_root::<C>(stage, replies.pre_execution_root) {
        Err(err) => Some(Err(err)),
        Ok(progress) => match transactions_outcome::<C>(progress, replies.transactions) {
            None => None,
            Some(Err(err)) => Some(Err(err)),
            Some(Ok(executed)) => match after_finish::<C>(executed, replies.finish) {
                Err(err) => Some(Err(err)),
                Ok(finished) => Some(
                    finished_outcome(finished, replies.post_execution, replies.endpoint_root),
                ),
            },
        },
    }
}

/// What such a validation comes to once the block is finished: with the reply to the consensus
/// check on what execution gave, and the root of the finished block where that is asked for.
pub open spec fn finished_outcome<C>(
    finished: FinishedView,
    reply: Result<(), C>,
    endpoint_root: Result<B256, StatelessTrieError>,
) -> Result<PairRootsView, StatelessValidationError<C>> {
    match after_post_execution(finished, reply) {
        Err(err) => Err(err),
        Ok(PairRootsProgressView::Accepted(accepted)) => Ok(accepted),
        Ok(PairRootsProgressView::Endpoint(stage)) => after_endpoint_root(stage, endpoint_root),
    }
}

/// The state root by which a block is judged: the last snapshot where nothing happens after the
/// last transaction, and that of the finished block otherwise.
pub open spec fn judged_root(
    finished: FinishedView,
    endpoint_root: Result<B256, StatelessTrieError>,
) -> Result<B256, StatelessTrieError> {
    if ends_with_transactions(finished.executed.setup.block, finished.request_count) {
        Ok(last_snapshot(finished.executed.roots))
    } else {
        endpoint_root
    }
}

/// The finished block that these replies describe.
pub open spec fn finished_of<C>(setup: Setup, replies: PairRootsReplies<C>) -> FinishedView {
    FinishedView {
        executed: ExecutedView {
            setup,
            roots: RootsView {
                pre_execution: replies.pre_execution_root->Ok_0,
                transactions: roots_of(replies.transactions),
            },
        },
        receipts: replies.finish->Ok_0.receipts@,
        request_count: replies.finish->Ok_0.request_count,
    }
}

/// The state roots among these replies.
pub open spec fn roots_of(replies: Seq<TransactionReplies>) -> Seq<B256> {
    replies.map_values(|replies: TransactionReplies| replies.root->Ok_0)
}

/// Whether a transaction went through: it could be executed, and the state root after it could be
/// calculated.
pub open spec fn went_through(replies: TransactionReplies) -> bool {
    replies.execution is Ok && replies.root is Ok
}

/// The error of a transaction that did not go through.
pub open spec fn transaction_failure<C>(replies: TransactionReplies) -> StatelessValidationError<C> {
    match replies.execution {
        Err(err) => StatelessValidationError::StatelessExecutionFailed(err),
        Ok(_) => trie_failure(replies.root->Err_0),
    }
}

/// The transactions of a block are executed in turn, each once. The root after a transaction is
/// the one answered for that transaction.
pub proof fn law_one_root_per_transaction<C>(
    executed: ExecutedView,
    replies: Seq<TransactionReplies>,
)
    requires
        executed.roots.transactions.len() + replies.len()
            == executed.setup.block.transaction_count,
        forall|i: int| 0 <= i < replies.len() ==> went_through(#[trigger] replies[i]),
    ensures
        transactions_outcome::<C>(due(executed), replies) == Some(
            Ok::<ExecutedView, StatelessValidationError<C>>(
                ExecutedView {
                    setup: executed.setup,
                    roots: RootsView {
                        pre_execution: executed.roots.pre_execution,
                        transactions: executed.roots.transactions + roots_of(replies),
                    },
                },
            ),
        ),
    decreases replies.len(),
{
    if replies.len() == 0 {
        assert(executed.roots.transactions + roots_of(replies) =~= executed.roots.transactions);
    } else {
        let root = replies.first().root->Ok_0;
        assert(went_through(replies[0]));
        let next = ExecutedView {
            setup: executed.setup,
            roots: RootsView {
                pre_execution: executed.roots.pre_execution,
                transactions: executed.roots.transactions.push(root),
            },
        };
        law_one_root_per_transaction::<C>(next, replies.drop_first());
        assert(next.roots.transactions + roots_of(replies.drop_first())
            =~= executed.roots.transactions + roots_of(replies));
    }
}

/// The first transaction that does not go through ends the validation with its error.
pub proof fn law_first_failed_transaction_decides<C>(
    executed: ExecutedView,
    replies: Seq<TransactionReplies>,
    failed: int,
)
    requires
        0 <= failed < replies.len(),
        executed.roots.transactions.len() + failed < executed.setup.block.transaction_count,
        forall|i: int| 0 <= i < failed ==> went_through(#[trigger] replies[i]),
        !went_through(replies[failed]),
    ensures
        transactions_outcome::<C>(due(executed), replies) == Some(
            Err::<ExecutedView, StatelessValidationError<C>>(
                transaction_failure(replies[failed]),
            ),
        ),
    decreases failed,
{
    if failed > 0 {
        assert(went_through(replies[0]));
        let next = ExecutedView {
            setup: executed.setup,
            roots: RootsView {
                pre_execution: executed.roots.pre_execution,
                transactions: executed.roots.transactions.push(replies.first().root->Ok_0),
            },
        };
        assert forall|i: int| 0 <= i < failed - 1 implies went_through(
            #[trigger] replies.drop_first()[i],
        ) by {
            assert(went_through(replies[i + 1]));
        }
        law_first_failed_transaction_decides::<C>(next, replies.drop_first(), failed - 1);
    }
}

/// The first failure decides a validation: the three consensus checks, the reveal of the witness,
/// the executor, the changes that precede the first transaction, the state root after them, each
/// transaction with the state root after it, the end of the block, the check on what execution
/// gave, and the state root of the finished block where that is asked for, in this order. Without a
/// failure, the block is accepted if and only if the state root by which it is judged is the one in
/// its header; and the roots after each transaction are handed out only where they are sound.
pub proof fn law_first_failure_decides<C>(
    stage: ConsensusStage<PairRoots>,
    replies: PairRootsReplies<C>,
)
    requires
        stage.due == ConsensusCheck::Header,
        replies.transactions.len() == stage.setup.block.transaction_count,
    ensures
        pair_roots_outcome(stage, replies) == Some(
            if replies.header is Err {
                Err(StatelessValidationError::ConsensusValidationFailed(replies.header->Err_0))
            } else if replies.header_against_parent is Err {
                Err(
                    StatelessValidationError::ConsensusValidationFailed(
                        replies.header_against_parent->Err_0,
                    ),
                )
            } else if replies.block_pre_execution is Err {
                Err(
                    StatelessValidationError::ConsensusValidationFailed(
                        replies.block_pre_execution->Err_0,
                    ),
                )
            } else if replies.reveal is Err {
                Err(trie_failure(replies.reveal->Err_0))
            } else if replies.executor is Err {
                Err(StatelessValidationError::StatelessExecutionFailed(replies.executor->Err_0))
            } else if replies.pre_execution is Err {
                Err(
                    StatelessValidationError::StatelessExecutionFailed(
                        replies.pre_execution->Err_0,
                    ),
                )
            } else if replies.pre_execution_root is Err {
                Err(trie_failure(replies.pre_execution_root->Err_0))
            } else if exists|i: int| is_first_failure(replies.transactions, i) {
                Err(
                    transaction_failure(
                        replies.transactions[choose|i: int|
                            is_first_failure(replies.transactions, i)],
                    ),
                )
            } else if replies.finish is Err {
                Err(StatelessValidationError::StatelessExecutionFailed(replies.finish->Err_0))
            } else if replies.post_execution is Err {
                Err(
                    StatelessValidationError::ConsensusValidationFailed(
                        replies.post_execution->Err_0,
                    ),
                )
            } else {
                let finished = finished_of(stage.setup, replies);
                let block = stage.setup.block;
                match judged_root(finished, replies.endpoint_root) {
                    Err(err) => Err(trie_failure(err)),
                    Ok(got) => if got != block.header.state_root {
                        Err(
                            StatelessValidationError::PostStateRootMismatch {
                                got,
                                expected: block.header.state_root,
                            },
                        )
                    } else {
                        Ok(
                            PairRootsView {
                                block_hash: block.header@.block_hash(),
                                transaction_roots: sound_roots_of(
                                    block,
                                    finished.request_count,
                                    finished.executed.roots.transactions,
                                ),
                                statuses: statuses_of(finished.receipts),
                            },
                        )
                    },
                }
            },
        ),
{
    let checks = seq![
        replies.header,
        replies.header_against_parent,
        replies.block_pre_execution,
    ];
    law_consensus_takes_three_checks(stage, checks);
    if replies.pre_execution_root is Ok {
        let started = ExecutedView {
            setup: stage.setup,
            roots: RootsView {
                pre_execution: replies.pre_execution_root->Ok_0,
                transactions: seq![],
            },
        };
        if exists|i: int| is_first_failure(replies.transactions, i) {
            let failed = choose|i: int| is_first_failure(replies.transactions, i);
            law_first_failed_transaction_decides::<C>(started, replies.transactions, failed);
        } else {
            lemma_no_first_failure(replies.transactions, replies.transactions.len() as int);
            law_one_root_per_transaction::<C>(started, replies.transactions);
            assert(seq![] + roots_of(replies.transactions) =~= roots_of(replies.transactions));
        }
    }
}

/// The transaction at position `i` is the first that does not go through.
pub open spec fn is_first_failure(replies: Seq<TransactionReplies>, i: int) -> bool {
    &&& 0 <= i < replies.len()
    &&& !went_through(replies[i])
    &&& forall|j: int| 0 <= j < i ==> went_through(#[trigger] replies[j])
}

/// Where no transaction is the first to fail, none fails.
proof fn lemma_no_first_failure(replies: Seq<TransactionReplies>, end: int)
    requires
        0 <= end <= replies.len(),
        forall|i: int| !is_first_failure(replies, i),
    ensures
        forall|i: int| 0 <= i < end ==> went_through(#[trigger] replies[i]),
    decreases end,
{
    if end > 0 {
        lemma_no_first_failure(replies, end - 1);
        assert(!is_first_failure(replies, end - 1));
    }
}

/// What an accepted block hands out: its hash, and either no roots at all or one for each
/// transaction, of which the last is the state root in the header. Roots are handed out only where
/// nothing happens after the last transaction; a block without transactions, and with nothing after
/// them, is accepted only on the root after the changes that precede them.
pub proof fn law_accepted_roots<C>(
    finished: FinishedView,
    reply: Result<(), C>,
    endpoint_root: Result<B256, StatelessTrieError>,
)
    requires
        finished.executed.roots.transactions.len()
            == finished.executed.setup.block.transaction_count,
        finished_outcome::<C>(finished, reply, endpoint_root) is Ok,
    ensures
        ({
            let accepted = finished_outcome::<C>(finished, reply, endpoint_root)->Ok_0;
            let block = finished.executed.setup.block;
            let sound = ends_with_transactions(block, finished.request_count);
            &&& reply is Ok
            &&& judged_root(finished, endpoint_root) == Ok::<B256, StatelessTrieError>(
                block.header.state_root,
            )
            &&& accepted.block_hash == block.header@.block_hash()
            &&& accepted.statuses == statuses_of(finished.receipts)
            &&& accepted.statuses.len() == finished.receipts.len()
            &&& accepted.transaction_roots.len() == if sound {
                block.transaction_count as nat
            } else {
                0
            }
            &&& accepted.transaction_roots.len() > 0 ==> accepted.transaction_roots.last()
                == block.header.state_root
            &&& sound && block.transaction_count == 0 ==> finished.executed.roots.pre_execution
                == block.header.state_root
        }),
{
}

/// What an accepted block rests on: its witness gave ancestors that lead up to it; every reply that
/// was asked for was a success; and the state root by which it is judged is the one in its header.
/// It hands out the block's hash, the roots where they are sound, and the statuses in the receipts.
pub proof fn law_accepted_block<C>(
    block: RecoveredBlock,
    encoded: Seq<Seq<u8>>,
    stage: ConsensusStage<PairRoots>,
    replies: PairRootsReplies<C>,
    accepted: PairRootsView,
)
    requires
        begins(block, encoded, PairRoots, Ok::<_, StatelessValidationError<C>>(stage)),
        replies.transactions.len() == block.transaction_count,
        pair_roots_outcome(stage, replies) == Some(
            Ok::<PairRootsView, StatelessValidationError<C>>(accepted),
        ),
    ensures
        witnessed_ancestry_of::<C>(block.header@, encoded) is Ok,
        follows(block.header@, stage.setup.ancestry.parent@),
        replies.header is Ok,
        replies.header_against_parent is Ok,
        replies.block_pre_execution is Ok,
        replies.reveal is Ok,
        replies.executor is Ok,
        replies.pre_execution is Ok,
        replies.pre_execution_root is Ok,
        forall|i: int|
            0 <= i < replies.transactions.len() ==> went_through(
                #[trigger] replies.transactions[i],
            ),
        replies.finish is Ok,
        replies.post_execution is Ok,
        judged_root(finished_of(stage.setup, replies), replies.endpoint_root) == Ok::<
            B256,
            StatelessTrieError,
        >(block.header.state_root),
        accepted.block_hash == keccak256_of(rlp_of_header(block.header@)),
        accepted.transaction_roots == sound_roots_of(
            block,
            replies.finish->Ok_0.request_count,
            roots_of(replies.transactions),
        ),
        accepted.statuses == statuses_of(replies.finish->Ok_0.receipts@),
        replies.finish->Ok_0.request_count > 0 ==> accepted.transaction_roots.len() == 0,
        block.withdrawal_count is Some && block.withdrawal_count->Some_0 > 0
            ==> accepted.transaction_roots.len() == 0,
        replies.finish->Ok_0.request_count == 0 && (block.withdrawal_count is None
            || block.withdrawal_count->Some_0 == 0) ==> {
            &&& accepted.transaction_roots.len() == replies.transactions.len()
            &&& forall|i: int|
                0 <= i < replies.transactions.len() ==> accepted.transaction_roots[i] == (
                #[trigger] replies.transactions[i]).root->Ok_0
        },
        accepted.statuses.len() == replies.finish->Ok_0.receipts@.len(),
        forall|i: int|
            0 <= i < accepted.statuses.len() ==> #[trigger] accepted.statuses[i]
                == replies.finish->Ok_0.receipts@[i].success,
{
    law_first_failure_decides(stage, replies);
    law_ancestry::<C>(block.header@, decoded_ancestors(encoded)->Some_0);
    if forall|i: int| !is_first_failure(replies.transactions, i) {
        lemma_no_first_failure(replies.transactions, replies.transactions.len() as int);
    }
}

/// The same checks have the same replies in both flows, and everything that only this flow asks for
/// up to the end of the block succeeds.
pub open spec fn replies_agree<O, C>(
    whole: WholeBlockReplies<O, C>,
    replies: PairRootsReplies<C>,
) -> bool {
    &&& whole.header == replies.header
    &&& whole.header_against_parent == replies.header_against_parent
    &&& whole.block_pre_execution == replies.block_pre_execution
    &&& whole.reveal == replies.reveal
    &&& whole.execution is Ok
    &&& whole.post_execution == replies.post_execution
    &&& replies.executor is Ok
    &&& replies.pre_execution is Ok
    &&& replies.pre_execution_root is Ok
    &&& forall|i: int|
        0 <= i < replies.transactions.len() ==> went_through(#[trigger] replies.transactions[i])
    &&& replies.finish is Ok
}

/// The two flows agree: where their replies do, execution succeeds, and the state root after the
/// block is the one by which it is judged transaction by transaction, both refuse the block with
/// the same error, or both accept it under the same hash.
pub proof fn law_flows_agree<O, C>(
    whole: ConsensusStage<WholeBlock>,
    whole_replies: WholeBlockReplies<O, C>,
    pairs: ConsensusStage<PairRoots>,
    replies: PairRootsReplies<C>,
)
    requires
        whole.due == ConsensusCheck::Header,
        pairs.due == ConsensusCheck::Header,
        whole.setup.block == pairs.setup.block,
        replies.transactions.len() == pairs.setup.block.transaction_count,
        replies_agree(whole_replies, replies),
        whole_replies.state_root == judged_root(
            finished_of(pairs.setup, replies),
            replies.endpoint_root,
        ),
    ensures
        match (whole_block_outcome(whole, whole_replies), pair_roots_outcome(pairs, replies)) {
            (Some(Ok(output)), Some(Ok(accepted))) => output.block_hash == accepted.block_hash,
            (Some(Err(err)), Some(Err(other))) => err == other,
            _ => false,
        },
{
    crate::validation::law_first_failure_decides(whole, whole_replies);
    law_first_failure_decides(pairs, replies);
}

/// A block with withdrawals or execution requests that is accepted as a whole is accepted here too,
/// whatever the roots between its transactions: under the same hash, with no roots, and with the
/// statuses in the receipts, one for each transaction where there is a receipt for each.
pub proof fn law_accepted_without_roots<O, C>(
    whole: ConsensusStage<WholeBlock>,
    whole_replies: WholeBlockReplies<O, C>,
    pairs: ConsensusStage<PairRoots>,
    replies: PairRootsReplies<C>,
    output: StatelessValidationOutput<O>,
)
    requires
        whole.due == ConsensusCheck::Header,
        pairs.due == ConsensusCheck::Header,
        whole.setup.block == pairs.setup.block,
        replies.transactions.len() == pairs.setup.block.transaction_count,
        replies_agree(whole_replies, replies),
        whole_replies.state_root == replies.endpoint_root,
        !ends_with_transactions(pairs.setup.block, replies.finish->Ok_0.request_count),
        whole_block_outcome(whole, whole_replies) == Some(
            Ok::<StatelessValidationOutput<O>, StatelessValidationError<C>>(output),
        ),
    ensures
        pair_roots_outcome(pairs, replies) == Some(
            Ok::<PairRootsView, StatelessValidationError<C>>(
                PairRootsView {
                    block_hash: output.block_hash,
                    transaction_roots: seq![],
                    statuses: statuses_of(replies.finish->Ok_0.receipts@),
                },
            ),
        ),
        replies.finish->Ok_0.receipts@.len() == pairs.setup.block.transaction_count
            ==> statuses_of(replies.finish->Ok_0.receipts@).len()
            == pairs.setup.block.transaction_count,
{
    crate::validation::law_first_failure_decides(whole, whole_replies);
    law_first_failure_decides(pairs, replies);
}

/// However this flow is entered, it begins on the given block, with the header check due and with
/// the ancestors that the witness gives; and it is refused where the witness is, with the same
/// error.
pub proof fn law_beginning<C>(
    block: RecoveredBlock,
    witness: ExecutionWitness,
    found: Result<Ancestry, StatelessValidationError<C>>,
    begun: Result<ConsensusStage<PairRoots>, StatelessValidationError<C>>,
)
    requires
        call_ensures(witnessed_ancestry::<C>, (&block.header, &witness), found),
        call_ensures(
            stateless_validation_recovered_with_pair_roots::<C>,
            (block, &witness),
            begun,
        ) || call_ensures(
            begin::<PairRoots, C>,
            (block, &witness, PairRoots),
            begun,
        ),
    ensures
        (match (begun, found) {
            (Ok(stage), Ok(ancestry)) => {
                &&& stage.setup.block == block
                &&& stage.setup.ancestry.parent@ == ancestry.parent@
                &&& stage.setup.ancestry.hashes@ == ancestry.hashes@
                &&& stage.due == ConsensusCheck::Header
            },
            (Err(err), Err(other)) => err == other,
            _ => false,
        }),
{
}

/// However this flow is entered, the parent it begins with is the header of the witness entry whose
/// digest the block names; and its hashes are the digests of the entries, each under the number of
/// the header that the entry encodes, and no others.
pub proof fn law_beginning_gives<C>(
    block: RecoveredBlock,
    witness: ExecutionWitness,
    begun: Result<ConsensusStage<PairRoots>, StatelessValidationError<C>>,
)
    requires
        call_ensures(
            stateless_validation_recovered_with_pair_roots::<C>,
            (block, &witness),
            begun,
        ) || call_ensures(
            begin::<PairRoots, C>,
            (block, &witness, PairRoots),
            begun,
        ),
        begun is Ok,
    ensures
        ({
            let entries = witness.headers@;
            let parent = begun->Ok_0.setup.ancestry.parent;
            let hashes = begun->Ok_0.setup.ancestry.hashes@;
            &&& parent.header.number + 1 == block.header.number
            &&& parent.hash == block.header.parent_hash
            &&& exists|i: int|
                {
                    &&& 0 <= i < entries.len()
                    &&& header_of_rlp((#[trigger] entries[i])@) == Some(parent.header@)
                    &&& keccak256_of(entries[i]@) == block.header.parent_hash
                }
            &&& forall|i: int|
                0 <= i < entries.len() ==> (header_of_rlp(
                    (#[trigger] entries[i])@,
                ) matches Some(header) && hashes.contains_key(header.number)
                    && hashes[header.number] == keccak256_of(entries[i]@))
            &&& forall|number: u64| #[trigger]
                hashes.contains_key(number) ==> exists|i: int|
                    {
                        &&& 0 <= i < entries.len()
                        &&& header_of_rlp((#[trigger] entries[i])@) matches Some(header)
                            && header.number == number
                    }
        }),
{
    lemma_found_in_witness::<C>(block.header@, witness, begun->Ok_0.setup.ancestry@);
}

/// What a validation in this flow asks the trie and hands to execution: the witness is revealed
/// against the state root of the header whose digest the block names; and the block hashes that can
/// be looked up are the digests of the witness entries, each under the number of the header that
/// the entry encodes, and no others.
pub proof fn law_execution_starts_from<C>(
    block: RecoveredBlock,
    witness: ExecutionWitness,
    stages: (ConsensusStage<PairRoots>, ConsensusStage<PairRoots>, ConsensusStage<PairRoots>),
    checks: (Result<(), C>, Result<(), C>, Result<(), C>),
    trie: TrieStage<PairRoots>,
    root: B256,
    revealed: Result<(), StatelessTrieError>,
    execution: ExecutorStage,
    looked_up: BTreeMap<u64, B256>,
)
    requires
        call_ensures(
            stateless_validation_recovered_with_pair_roots::<C>,
            (block, &witness),
            Ok::<ConsensusStage<PairRoots>, StatelessValidationError<C>>(stages.0),
        ),
        call_ensures(
            validate_block_consensus::<PairRoots, C>,
            (stages.0, checks.0),
            Ok::<ConsensusProgress<PairRoots>, StatelessValidationError<C>>(
                ConsensusProgress::Check(stages.1),
            ),
        ),
        call_ensures(
            validate_block_consensus::<PairRoots, C>,
            (stages.1, checks.1),
            Ok::<ConsensusProgress<PairRoots>, StatelessValidationError<C>>(
                ConsensusProgress::Check(stages.2),
            ),
        ),
        call_ensures(
            validate_block_consensus::<PairRoots, C>,
            (stages.2, checks.2),
            Ok::<ConsensusProgress<PairRoots>, StatelessValidationError<C>>(
                ConsensusProgress::Passed(trie),
            ),
        ),
        call_ensures(TrieStage::<PairRoots>::pre_state_root, (&trie,), root),
        call_ensures(
            TrieStage::<PairRoots>::witness_revealed::<C>,
            (trie, revealed),
            Ok::<ExecutorStage, StatelessValidationError<C>>(execution),
        ),
        call_ensures(ExecutorStage::ancestor_hashes, (&execution,), &looked_up),
    ensures
        ({
            let entries = witness.headers@;
            let parent = execution.setup.ancestry.parent;
            let hashes = looked_up@;
            &&& root == parent.header.state_root
            &&& execution.setup.block == block
            &&& exists|i: int|
                {
                    &&& 0 <= i < entries.len()
                    &&& header_of_rlp((#[trigger] entries[i])@) == Some(parent.header@)
                    &&& keccak256_of(entries[i]@) == block.header.parent_hash
                }
            &&& forall|i: int|
                0 <= i < entries.len() ==> (header_of_rlp(
                    (#[trigger] entries[i])@,
                ) matches Some(header) && hashes.contains_key(header.number)
                    && hashes[header.number] == keccak256_of(entries[i]@))
            &&& forall|number: u64| #[trigger]
                hashes.contains_key(number) ==> exists|i: int|
                    {
                        &&& 0 <= i < entries.len()
                        &&& header_of_rlp((#[trigger] entries[i])@) matches Some(header)
                            && header.number == number
                    }
        }),
{
    lemma_found_in_witness::<C>(block.header@, witness, stages.0.setup.ancestry@);
}

/// The reveal of the witness fails with the error of the trie, and otherwise keeps the block and
/// its ancestors.
pub proof fn law_reveal_step<C>(
    stage: TrieStage<PairRoots>,
    reply: Result<(), StatelessTrieError>,
    next: Result<ExecutorStage, StatelessValidationError<C>>,
)
    requires
        call_ensures(TrieStage::<PairRoots>::witness_revealed::<C>, (stage, reply), next),
    ensures
        (match (reply, next) {
            (Ok(_), Ok(execution)) => execution.setup == stage.setup,
            (Err(err), Err(failure)) => failure == trie_failure::<C>(err),
            _ => false,
        }),
{
}

/// Without an executor the validation ends with the reason; with one, the block and its ancestors
/// are kept.
pub proof fn law_executor_step<C>(
    stage: ExecutorStage,
    reply: Result<(), String>,
    next: Result<PreExecutionStage, StatelessValidationError<C>>,
)
    requires
        call_ensures(ExecutorStage::executor_made::<C>, (stage, reply), next),
    ensures
        (match (reply, next) {
            (Ok(_), Ok(kept)) => {
                &&& kept.setup == stage.setup
            },
            (Err(err), Err(failure)) => failure
                == StatelessValidationError::<C>::StatelessExecutionFailed(err),
            _ => false,
        }),
{
}

/// Where the changes that precede the first transaction fail, the validation ends with the reason;
/// otherwise the block and its ancestors are kept.
pub proof fn law_pre_execution_step<C>(
    stage: PreExecutionStage,
    reply: Result<(), String>,
    next: Result<PreExecutionRootStage, StatelessValidationError<C>>,
)
    requires
        call_ensures(PreExecutionStage::pre_execution_applied::<C>, (stage, reply), next),
    ensures
        (match (reply, next) {
            (Ok(_), Ok(kept)) => {
                &&& kept.setup == stage.setup
            },
            (Err(err), Err(failure)) => failure
                == StatelessValidationError::<C>::StatelessExecutionFailed(err),
            _ => false,
        }),
{
}

/// The state root before the first transaction is kept, and the transactions begin with none done:
/// one is due if and only if the block has any.
pub proof fn law_first_root_step<C>(
    stage: PreExecutionRootStage,
    reply: Result<B256, StatelessTrieError>,
    next: Result<BlockProgress, StatelessValidationError<C>>,
)
    requires
        call_ensures(PreExecutionRootStage::root_calculated::<C>, (stage, reply), next),
    ensures
        (match (reply, next) {
            (Ok(root), Ok(BlockProgress::Execute(kept))) => {
                &&& stage.setup.block.transaction_count > 0
                &&& kept.setup == stage.setup
                &&& kept.roots.pre_execution == root
                &&& kept.roots.transactions@.len() == 0
            },
            (Ok(root), Ok(BlockProgress::Finish(kept))) => {
                &&& stage.setup.block.transaction_count == 0
                &&& kept.setup == stage.setup
                &&& kept.roots.pre_execution == root
                &&& kept.roots.transactions@.len() == 0
            },
            (Err(err), Err(failure)) => failure == trie_failure::<C>(err),
            _ => false,
        }),
{
}

/// Where a transaction cannot be executed, the validation ends with the reason; otherwise the
/// block, its ancestors and the roots so far are kept.
pub proof fn law_transaction_step<C>(
    stage: TransactionStage,
    reply: Result<(), String>,
    next: Result<TransactionRootStage, StatelessValidationError<C>>,
)
    requires
        call_ensures(TransactionStage::transaction_executed::<C>, (stage, reply), next),
    ensures
        (match (reply, next) {
            (Ok(_), Ok(kept)) => {
                &&& kept.setup == stage.setup
                &&& kept.roots.pre_execution == stage.roots.pre_execution
                &&& kept.roots.transactions@ == stage.roots.transactions@
            },
            (Err(err), Err(failure)) => failure
                == StatelessValidationError::<C>::StatelessExecutionFailed(err),
            _ => false,
        }),
{
}

/// The state root after a transaction comes behind the roots so far, which stay as they are.
/// Another transaction is due if and only if there are still fewer roots than transactions.
pub proof fn law_transaction_root_step<C>(
    stage: TransactionRootStage,
    reply: Result<B256, StatelessTrieError>,
    next: Result<BlockProgress, StatelessValidationError<C>>,
)
    requires
        call_ensures(TransactionRootStage::root_calculated::<C>, (stage, reply), next),
    ensures
        (match (reply, next) {
            (Ok(root), Ok(BlockProgress::Execute(kept))) => {
                &&& stage.roots.transactions@.len() + 1 < stage.setup.block.transaction_count
                &&& kept.setup == stage.setup
                &&& kept.roots.pre_execution == stage.roots.pre_execution
                &&& kept.roots.transactions@.len() == stage.roots.transactions@.len() + 1
                &&& kept.roots.transactions@.last() == root
                &&& kept.roots.transactions@.drop_last() == stage.roots.transactions@
            },
            (Ok(root), Ok(BlockProgress::Finish(kept))) => {
                &&& stage.roots.transactions@.len() + 1 >= stage.setup.block.transaction_count
                &&& kept.setup == stage.setup
                &&& kept.roots.pre_execution == stage.roots.pre_execution
                &&& kept.roots.transactions@.len() == stage.roots.transactions@.len() + 1
                &&& kept.roots.transactions@.last() == root
                &&& kept.roots.transactions@.drop_last() == stage.roots.transactions@
            },
            (Err(err), Err(failure)) => failure == trie_failure::<C>(err),
            _ => false,
        }),
{
    if let Ok(root) = reply {
        let before = stage.roots.transactions@;
        assert(before.push(root).drop_last() =~= before);
    }
}

/// The transactions are executed in the order of the block: the one that is due is the one behind
/// those that have a root.
pub proof fn law_transactions_in_order<C>(
    stage: TransactionStage,
    executed: TransactionRootStage,
    next: TransactionStage,
    replies: (Result<(), String>, Result<B256, StatelessTrieError>),
    index: usize,
    next_index: usize,
)
    requires
        call_ensures(TransactionStage::index, (&stage,), index),
        call_ensures(
            TransactionStage::transaction_executed::<C>,
            (stage, replies.0),
            Ok::<TransactionRootStage, StatelessValidationError<C>>(executed),
        ),
        call_ensures(
            TransactionRootStage::root_calculated::<C>,
            (executed, replies.1),
            Ok::<BlockProgress, StatelessValidationError<C>>(BlockProgress::Execute(next)),
        ),
        call_ensures(TransactionStage::index, (&next,), next_index),
    ensures
        index == stage.roots.transactions@.len(),
        next_index == index + 1,
        next_index < next.setup.block.transaction_count,
        next.roots.transactions@[index as int] == replies.1->Ok_0,
{
}

/// Where the executor cannot finish the block, the validation ends with the reason; otherwise what
/// it handed over is kept, with the block, its ancestors and the roots.
pub proof fn law_finish_step<C>(
    stage: FinishStage,
    reply: Result<FinishedBlock, String>,
    next: Result<PairRootsPostExecutionStage, StatelessValidationError<C>>,
)
    requires
        call_ensures(FinishStage::block_finished::<C>, (stage, reply), next),
    ensures
        (match (reply, next) {
            (Ok(finished), Ok(kept)) => {
                &&& kept.setup == stage.setup
                &&& kept.roots.pre_execution == stage.roots.pre_execution
                &&& kept.roots.transactions@ == stage.roots.transactions@
                &&& kept.finished.receipts@ == finished.receipts@
                &&& kept.finished.request_count == finished.request_count
            },
            (Err(err), Err(failure)) => failure
                == StatelessValidationError::<C>::StatelessExecutionFailed(err),
            _ => false,
        }),
{
}

/// What follows the consensus check on what execution gave, by the counts alone. With execution
/// requests, whatever the withdrawals, and with withdrawals, whatever the requests, the state root
/// of the finished block is due. With neither, the block is accepted if and only if the last root
/// is the one in its header, and the roots that were answered for its transactions are handed out.
pub proof fn law_roots_by_counts<C>(
    stage: PairRootsPostExecutionStage,
    reply: Result<(), C>,
    progress: Result<PairRootsProgress, StatelessValidationError<C>>,
)
    requires
        call_ensures(
            PairRootsPostExecutionStage::post_execution_validated::<C>,
            (stage, reply),
            progress,
        ),
    ensures
        ({
            let block = stage.setup.block;
            let requests = stage.finished.request_count;
            let expected = block.header.state_root;
            let roots = stage.roots.transactions@;
            let last = if roots.len() == 0 {
                stage.roots.pre_execution
            } else {
                roots[roots.len() - 1]
            };
            &&& reply matches Err(err) ==> (progress matches Err(failure) && failure
                == StatelessValidationError::ConsensusValidationFailed(err))
            &&& reply is Ok && requests > 0 ==> (progress matches Ok(
                PairRootsProgress::Endpoint(_),
            ))
            &&& reply is Ok && block.withdrawal_count is Some && block.withdrawal_count->Some_0 > 0
                ==> (progress matches Ok(PairRootsProgress::Endpoint(_)))
            &&& reply is Ok && requests == 0 && (block.withdrawal_count is None
                || block.withdrawal_count->Some_0 == 0) && last == expected
                ==> (progress matches Ok(PairRootsProgress::Accepted(accepted)) && accepted.1@
                == roots)
            &&& reply is Ok && requests == 0 && (block.withdrawal_count is None
                || block.withdrawal_count->Some_0 == 0) && last != expected
                ==> (progress matches Err(failure) && failure
                == StatelessValidationError::<C>::PostStateRootMismatch { got: last, expected })
            &&& progress matches Ok(PairRootsProgress::Endpoint(kept)) ==> kept.setup == stage.setup
            &&& progress matches Ok(PairRootsProgress::Accepted(accepted)) ==> accepted.0
                == keccak256_of(rlp_of_header(block.header@))
        }),
{
}

/// Each transaction is reported as its own receipt has it, whether or not the roots are handed out.
pub proof fn law_statuses_by_receipts<C>(
    stage: PairRootsPostExecutionStage,
    reply: Result<(), C>,
    progress: PairRootsProgress,
)
    requires
        call_ensures(
            PairRootsPostExecutionStage::post_execution_validated::<C>,
            (stage, reply),
            Ok::<PairRootsProgress, StatelessValidationError<C>>(progress),
        ),
    ensures
        ({
            let receipts = stage.finished.receipts@;
            let statuses = match progress {
                PairRootsProgress::Accepted(accepted) => accepted.2@,
                PairRootsProgress::Endpoint(kept) => kept.statuses@,
            };
            &&& statuses.len() == receipts.len()
            &&& forall|i: int|
                #![trigger statuses[i]]
                #![trigger receipts[i]]
                0 <= i < receipts.len() ==> statuses[i] == receipts[i].success
        }),
{
}

/// Where the state root of the finished block is due, the block is accepted if and only if that
/// root could be calculated and is the one in its header: under the digest of its header's
/// encoding, with no roots, and with the statuses as they were.
pub proof fn law_endpoint_decides<C>(
    stage: EndpointRootStage,
    reply: Result<B256, StatelessTrieError>,
    concluded: Result<(B256, Vec<B256>, Vec<bool>), StatelessValidationError<C>>,
)
    requires
        call_ensures(EndpointRootStage::root_calculated::<C>, (stage, reply), concluded),
    ensures
        (match (reply, concluded) {
            (Ok(got), Ok(accepted)) => {
                &&& got == stage.setup.block.header.state_root
                &&& accepted.0 == keccak256_of(rlp_of_header(stage.setup.block.header@))
                &&& accepted.1@.len() == 0
                &&& accepted.2@ == stage.statuses@
            },
            (Ok(got), Err(failure)) => {
                let expected = stage.setup.block.header.state_root;
                &&& got != expected
                &&& failure == StatelessValidationError::<C>::PostStateRootMismatch {
                    got,
                    expected,
                }
            },
            (Err(err), Err(failure)) => failure == trie_failure::<C>(err),
            _ => false,
        }),
{
}

/// Every snapshot starts from the state root of the parent that the validation found.
pub proof fn law_snapshots_start_from_parent(
    before: PreExecutionRootStage,
    after: TransactionRootStage,
    end: EndpointRootStage,
    roots: (B256, B256, B256),
)
    requires
        call_ensures(PreExecutionRootStage::pre_state_root, (&before,), roots.0),
        call_ensures(TransactionRootStage::pre_state_root, (&after,), roots.1),
        call_ensures(EndpointRootStage::pre_state_root, (&end,), roots.2),
    ensures
        roots.0 == before.setup.ancestry.parent.header.state_root,
        roots.1 == after.setup.ancestry.parent.header.state_root,
        roots.2 == end.setup.ancestry.parent.header.state_root,
{
}

/// The last snapshot is the last root of a transaction, where there is one, and the root before the
/// first transaction otherwise.
pub proof fn law_final_root(roots: Roots, root: B256)
    requires
        call_ensures(final_root, (&roots,), root),
    ensures
        roots.transactions@.len() == 0 ==> root == roots.pre_execution,
        roots.transactions@.len() > 0 ==> root == roots.transactions@[roots.transactions@.len()
            - 1],
{
}

/// Something follows the transactions of a block if and only if it makes an execution request or
/// has a withdrawal.
pub proof fn law_nothing_follows(block: RecoveredBlock, request_count: usize, nothing: bool)
    requires
        call_ensures(nothing_follows_transactions, (&block, request_count), nothing),
    ensures
        !nothing <==> request_count > 0 || (block.withdrawal_count is Some
            && block.withdrawal_count->Some_0 > 0),
{
}

/// There is one status for each receipt, and it is the receipt's.
pub proof fn law_statuses(receipts: Vec<Receipt>, statuses: Vec<bool>)
    requires
        call_ensures(transaction_statuses, (&receipts,), statuses),
    ensures
        statuses@.len() == receipts@.len(),
        forall|i: int|
            #![trigger statuses@[i]]
            #![trigger receipts@[i]]
            0 <= i < receipts@.len() ==> statuses@[i] == receipts@[i].success,
{
}

} // verus!
