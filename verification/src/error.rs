//! What a validation reports when it fails.

use crate::hash::B256;
use vstd::prelude::*;

verus! {

/// What a trie reports when it cannot give a state root.
#[derive(Clone, Debug, PartialEq, Eq)]
pub enum StatelessTrieError {
    /// Revealing the witness data failed.
    WitnessRevealFailed {
        /// The pre-state root used for verification.
        pre_state_root: B256,
    },
    /// The state root could not be calculated.
    StatelessStateRootCalculationFailed,
    /// The pre-state root could not be calculated from the witness data.
    StatelessPreStateRootCalculationFailed,
    /// The computed pre-state root is not the expected one.
    PreStateRootMismatch {
        /// The computed pre-state root.
        got: B256,
        /// The expected pre-state root, from the parent block.
        expected: B256,
    },
}

/// Errors that can occur during stateless validation. `C` is the error of the consensus rules.
#[derive(Clone, Debug, PartialEq, Eq)]
pub enum StatelessValidationError<C> {
    /// The number of ancestor headers exceeds the limit.
    AncestorHeaderLimitExceeded {
        /// The number of headers provided.
        count: usize,
        /// The limit.
        limit: usize,
    },
    /// The ancestor headers do not form a contiguous chain.
    InvalidAncestorChain,
    /// Revealing the witness data failed.
    WitnessRevealFailed {
        /// The pre-state root used for verification.
        pre_state_root: B256,
    },
    /// Execution of the block failed.
    StatelessExecutionFailed(String),
    /// Consensus validation of the block failed.
    ConsensusValidationFailed(C),
    /// The state root could not be calculated.
    StatelessStateRootCalculationFailed,
    /// The pre-state root could not be calculated from the witness data.
    StatelessPreStateRootCalculationFailed,
    /// A required ancestor header is missing (the parent, whose state root is the pre-state root).
    MissingAncestorHeader,
    /// An ancestor header could not be deserialized.
    HeaderDeserializationFailed,
    /// The computed state root does not match the one in the block header.
    PostStateRootMismatch {
        /// The computed post-state root.
        got: B256,
        /// The expected post-state root, in the block header.
        expected: B256,
    },
    /// The computed pre-state root does not match the expected one.
    PreStateRootMismatch {
        /// The computed pre-state root.
        got: B256,
        /// The expected pre-state root, from the parent block.
        expected: B256,
    },
    /// Signer recovery failed.
    SignerRecovery,
    /// A signature has a non-normalized s value in a homestead block.
    HomesteadSignatureNotNormalized,
    /// Custom error.
    Custom(&'static str),
}

/// The validation error that stands for a trie error: the variant of the same name, with the same
/// roots.
pub open spec fn trie_failure<C>(err: StatelessTrieError) -> StatelessValidationError<C> {
    match err {
        StatelessTrieError::WitnessRevealFailed { pre_state_root } =>
            StatelessValidationError::WitnessRevealFailed { pre_state_root },
        StatelessTrieError::StatelessStateRootCalculationFailed =>
            StatelessValidationError::StatelessStateRootCalculationFailed,
        StatelessTrieError::StatelessPreStateRootCalculationFailed =>
            StatelessValidationError::StatelessPreStateRootCalculationFailed,
        StatelessTrieError::PreStateRootMismatch { got, expected } =>
            StatelessValidationError::PreStateRootMismatch { got, expected },
    }
}

impl<C> From<StatelessTrieError> for StatelessValidationError<C> {
    fn from(err: StatelessTrieError) -> (failure: Self) {
        match err {
            StatelessTrieError::WitnessRevealFailed { pre_state_root } => {
                StatelessValidationError::WitnessRevealFailed { pre_state_root }
            },
            StatelessTrieError::StatelessStateRootCalculationFailed => {
                StatelessValidationError::StatelessStateRootCalculationFailed
            },
            StatelessTrieError::StatelessPreStateRootCalculationFailed => {
                StatelessValidationError::StatelessPreStateRootCalculationFailed
            },
            StatelessTrieError::PreStateRootMismatch { got, expected } => {
                StatelessValidationError::PreStateRootMismatch { got, expected }
            },
        }
    }
}

impl<C> vstd::std_specs::convert::FromSpecImpl<StatelessTrieError> for StatelessValidationError<C> {
    open spec fn obeys_from_spec() -> bool {
        true
    }

    open spec fn from_spec(err: StatelessTrieError) -> Self {
        trie_failure(err)
    }
}

/// No two trie errors are reported as the same validation error.
pub proof fn law_trie_failures_are_distinct<C>(a: StatelessTrieError, b: StatelessTrieError)
    ensures
        trie_failure::<C>(a) == trie_failure::<C>(b) <==> a == b,
{
}

/// A trie error is reported under its own name, with the roots that it carries where it carries
/// them: the computed root as computed, the expected root as expected.
pub proof fn law_trie_failure_keeps_roots<C>(
    err: StatelessTrieError,
    failure: StatelessValidationError<C>,
)
    requires
        failure == trie_failure::<C>(err) || call_ensures(
            <StatelessValidationError<C> as From<StatelessTrieError>>::from,
            (err,),
            failure,
        ),
    ensures
        err is WitnessRevealFailed <==> failure is WitnessRevealFailed,
        err is PreStateRootMismatch <==> failure is PreStateRootMismatch,
        err is StatelessStateRootCalculationFailed
            <==> failure is StatelessStateRootCalculationFailed,
        err is StatelessPreStateRootCalculationFailed
            <==> failure is StatelessPreStateRootCalculationFailed,
        (match (err, failure) {
            (
                StatelessTrieError::WitnessRevealFailed { pre_state_root },
                StatelessValidationError::WitnessRevealFailed { pre_state_root: reported },
            ) => reported == pre_state_root,
            (
                StatelessTrieError::PreStateRootMismatch { got, expected },
                StatelessValidationError::PreStateRootMismatch {
                    got: reported_got,
                    expected: reported_expected,
                },
            ) => reported_got == got && reported_expected == expected,
            _ => true,
        }),
{
}

} // verus!
