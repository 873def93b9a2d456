//! Conversion and texts of errors.

use stateless::error::StatelessTrieError;
use stateless::error::StatelessValidationError;

type Failure = StatelessValidationError<u8>;

#[test]
fn trie_errors_keep_their_kind_and_roots() {
    let cases = vec![
        (
            StatelessTrieError::WitnessRevealFailed { pre_state_root: [1; 32] },
            Failure::WitnessRevealFailed { pre_state_root: [1; 32] },
        ),
        (
            StatelessTrieError::StatelessStateRootCalculationFailed,
            Failure::StatelessStateRootCalculationFailed,
        ),
        (
            StatelessTrieError::StatelessPreStateRootCalculationFailed,
            Failure::StatelessPreStateRootCalculationFailed,
        ),
        (
            StatelessTrieError::PreStateRootMismatch { got: [2; 32], expected: [3; 32] },
            Failure::PreStateRootMismatch { got: [2; 32], expected: [3; 32] },
        ),
    ];
    for (err, expected) in cases {
        assert_eq!(Failure::from(err), expected);
    }
}

#[test]
fn texts_of_plain_errors() {
    let cases = vec![
        (Failure::InvalidAncestorChain, "invalid ancestor chain"),
        (Failure::StatelessStateRootCalculationFailed, "stateless state root calculation failed"),
        (
            Failure::StatelessPreStateRootCalculationFailed,
            "stateless pre-state root calculation failed",
        ),
        (Failure::MissingAncestorHeader, "missing required ancestor headers"),
        (Failure::HeaderDeserializationFailed, "could not deserialize ancestor headers"),
        (Failure::SignerRecovery, "signer recovery failed"),
        (
            Failure::HomesteadSignatureNotNormalized,
            "signature s value not normalized for homestead block",
        ),
        (Failure::Custom("something else"), "something else"),
        (
            Failure::StatelessExecutionFailed("out of gas".to_string()),
            "stateless block execution failed: out of gas",
        ),
        (Failure::ConsensusValidationFailed(4), "consensus validation failed: bad gas limit"),
    ];
    for (err, expected) in cases {
        assert_eq!(err.message("bad gas limit"), expected);
    }
}

#[test]
fn texts_with_numbers() {
    let err = Failure::AncestorHeaderLimitExceeded { count: 257, limit: 256 };
    assert_eq!(err.message(""), "ancestor header count (257) exceeds limit (256)");
    let err = Failure::AncestorHeaderLimitExceeded { count: usize::MAX, limit: 0 };
    assert_eq!(
        err.message(""),
        format!("ancestor header count ({}) exceeds limit (0)", usize::MAX)
    );
}

#[test]
fn texts_with_roots() {
    let mut got = [0u8; 32];
    for i in 0..32 {
        got[i] = (i * 17 % 256) as u8;
    }
    let expected = [0xa9u8; 32];
    let hex = |bytes: &[u8; 32]| alloy_primitives::B256::from(*bytes).to_string();
    assert_eq!(
        Failure::WitnessRevealFailed { pre_state_root: got }.message(""),
        format!("failed to reveal witness data for pre-state root {}", hex(&got))
    );
    assert_eq!(
        Failure::PostStateRootMismatch { got, expected }.message(""),
        format!("mismatched post-state root: {}\n {}", hex(&got), hex(&expected))
    );
    assert_eq!(
        Failure::PreStateRootMismatch { got, expected }.message(""),
        format!("mismatched pre-state root: {} \n {}", hex(&got), hex(&expected))
    );
    assert_eq!(hex(&expected), format!("0x{}", "a9".repeat(32)));
}
