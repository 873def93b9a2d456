//! The texts of validation errors.

use crate::error::StatelessValidationError;
use crate::hash::B256;
use vstd::prelude::*;
use vstd::string::StringExecFns;

verus! {

/// The character for a hexadecimal digit, in lower case.
pub open spec fn hex_char(digit: int) -> char {
    if digit < 10 {
        ('0' as u8 + digit) as char
    } else {
        ('a' as u8 + digit - 10) as char
    }
}

/// The hexadecimal digits of bytes, two for each.
pub open spec fn hex(bytes: Seq<u8>) -> Seq<char> {
    Seq::new(
        2 * bytes.len(),
        |i: int|
            if i % 2 == 0 {
                hex_char(bytes[i / 2] as int / 16)
            } else {
                hex_char(bytes[i / 2] as int % 16)
            },
    )
}

/// How a hash is written: `0x` and its hexadecimal digits.
pub open spec fn hash_text(hash: B256) -> Seq<char> {
    "0x"@ + hex(hash@)
}

/// The decimal digits of a number, without leading zeros.
pub open spec fn decimal(number: nat) -> Seq<char>
    decreases number,
{
    if number < 10 {
        seq![hex_char(number as int)]
    } else {
        decimal(number / 10).push(hex_char(number as int % 10))
    }
}

/// The text of a validation error. `consensus` is the text of the consensus error that it may hold.
pub open spec fn message_of<C>(err: StatelessValidationError<C>, consensus: Seq<char>) -> Seq<char> {
    match err {
        StatelessValidationError::AncestorHeaderLimitExceeded { count, limit } =>
            "ancestor header count ("@ + decimal(count as nat) + ") exceeds limit ("@ + decimal(
            limit as nat,
        ) + ")"@,
        StatelessValidationError::InvalidAncestorChain => "invalid ancestor chain"@,
        StatelessValidationError::WitnessRevealFailed { pre_state_root } =>
            "failed to reveal witness data for pre-state root "@ + hash_text(pre_state_root),
        StatelessValidationError::StatelessExecutionFailed(reason) =>
            "stateless block execution failed: "@ + reason@,
        StatelessValidationError::ConsensusValidationFailed(_) =>
            "consensus validation failed: "@ + consensus,
        StatelessValidationError::StatelessStateRootCalculationFailed =>
            "stateless state root calculation failed"@,
        StatelessValidationError::StatelessPreStateRootCalculationFailed =>
            "stateless pre-state root calculation failed"@,
        StatelessValidationError::MissingAncestorHeader => "missing required ancestor headers"@,
        StatelessValidationError::HeaderDeserializationFailed =>
            "could not deserialize ancestor headers"@,
        StatelessValidationError::PostStateRootMismatch { got, expected } =>
            "mismatched post-state root: "@ + hash_text(got) + "\n "@ + hash_text(expected),
        StatelessValidationError::PreStateRootMismatch { got, expected } =>
            "mismatched pre-state root: "@ + hash_text(got) + " \n "@ + hash_text(expected),
        StatelessValidationError::SignerRecovery => "signer recovery failed"@,
        StatelessValidationError::HomesteadSignatureNotNormalized =>
            "signature s value not normalized for homestead block"@,
        StatelessValidationError::Custom(text) => text@,
    }
}

/// Writes one hexadecimal digit.
fn digit_text(digit: u8) -> (text: &'static str)
    requires
        digit < 16,
    ensures
        text@ == seq![hex_char(digit as int)],
{
    proof {
        reveal_strlit("0");
        reveal_strlit("1");
        reveal_strlit("2");
        reveal_strlit("3");
        reveal_strlit("4");
        reveal_strlit("5");
        reveal_strlit("6");
        reveal_strlit("7");
        reveal_strlit("8");
        reveal_strlit("9");
        reveal_strlit("a");
        reveal_strlit("b");
        reveal_strlit("c");
        reveal_strlit("d");
        reveal_strlit("e");
        reveal_strlit("f");
    }
    let text: &'static str = match digit {
        0 => "0",
        1 => "1",
        2 => "2",
        3 => "3",
        4 => "4",
        5 => "5",
        6 => "6",
        7 => "7",
        8 => "8",
        9 => "9",
        10 => "a",
        11 => "b",
        12 => "c",
        13 => "d",
        14 => "e",
        _ => "f",
    };
    assert(text@ =~= seq![hex_char(digit as int)]);
    text
}

/// Appends a hash.
fn append_hash(text: &mut String, hash: &B256)
    ensures
        final(text)@ == old(text)@ + hash_text(*hash),
{
    text.append("0x");
    let ghost start = old(text)@ + "0x"@;
    let mut i: usize = 0;
    assert(text@ =~= start + hex(hash@.take(0)));
    while i < 32
        invariant
            i <= 32,
            text@ == start + hex(hash@.take(i as int)),
        decreases 32 - i,
    {
        let byte: u8 = hash[i];
        text.append(digit_text(byte / 16));
        text.append(digit_text(byte % 16));
        assert(hex(hash@.take(i + 1)) =~= hex(hash@.take(i as int)).push(
            hex_char(byte as int / 16),
        ).push(hex_char(byte as int % 16)));
        i += 1;
        assert(text@ =~= start + hex(hash@.take(i as int)));
    }
    assert(hash@.take(32) =~= hash@);
    assert(text@ =~= old(text)@ + hash_text(*hash));
}

/// Appends a number.
fn append_decimal(text: &mut String, number: usize)
    ensures
        final(text)@ == old(text)@ + decimal(number as nat),
    decreases number,
{
    if number >= 10 {
        append_decimal(text, number / 10);
    }
    text.append(digit_text((number % 10) as u8));
    assert(text@ =~= old(text)@ + decimal(number as nat));
}

impl<C> StatelessValidationError<C> {
    /// The error as text. `consensus` is the text of the consensus error that it may hold.
    pub fn message(&self, consensus: &str) -> (text: String)
        ensures
            text@ == message_of(*self, consensus@),
    {
        match self {
            StatelessValidationError::AncestorHeaderLimitExceeded { count, limit } => {
                let mut text = "ancestor header count (".to_owned();
                append_decimal(&mut text, *count);
                text.append(") exceeds limit (");
                append_decimal(&mut text, *limit);
                text.append(")");
                text
            },
            StatelessValidationError::InvalidAncestorChain => "invalid ancestor chain".to_owned(),
            StatelessValidationError::WitnessRevealFailed { pre_state_root } => {
                let mut text = "failed to reveal witness data for pre-state root ".to_owned();
                append_hash(&mut text, pre_state_root);
                text
            },
            StatelessValidationError::StatelessExecutionFailed(reason) => {
                let mut text = "stateless block execution failed: ".to_owned();
                text.append(reason.as_str());
                text
            },
            StatelessValidationError::ConsensusValidationFailed(_) => {
                let mut text = "consensus validation failed: ".to_owned();
                text.append(consensus);
                text
            },
            StatelessValidationError::StatelessStateRootCalculationFailed => {
                "stateless state root calculation failed".to_owned()
            },
            StatelessValidationError::StatelessPreStateRootCalculationFailed => {
                "stateless pre-state root calculation failed".to_owned()
            },
            StatelessValidationError::MissingAncestorHeader => {
                "missing required ancestor headers".to_owned()
            },
            StatelessValidationError::HeaderDeserializationFailed => {
                "could not deserialize ancestor headers".to_owned()
            },
            StatelessValidationError::PostStateRootMismatch { got, expected } => {
                let mut text = "mismatched post-state root: ".to_owned();
                append_hash(&mut text, got);
                text.append("\n ");
                append_hash(&mut text, expected);
                text
            },
            StatelessValidationError::PreStateRootMismatch { got, expected } => {
                let mut text = "mismatched pre-state root: ".to_owned();
                append_hash(&mut text, got);
                text.append(" \n ");
                append_hash(&mut text, expected);
                text
            },
            StatelessValidationError::SignerRecovery => "signer recovery failed".to_owned(),
            StatelessValidationError::HomesteadSignatureNotNormalized => {
                "signature s value not normalized for homestead block".to_owned()
            },
            StatelessValidationError::Custom(text) => (*text).to_owned(),
        }
    }
}

/// The number that a text of decimal digits stands for.
pub open spec fn decimal_value(text: Seq<char>) -> int
    decreases text.len(),
{
    if text.len() == 0 {
        0
    } else {
        10 * decimal_value(text.drop_last()) + (text.last() as int - '0' as int)
    }
}

/// A number is written in decimal digits that stand for it, without leading zeros.
pub proof fn law_decimal_reads_back(number: nat)
    ensures
        decimal_value(decimal(number)) == number,
        decimal(number).len() > 0,
        forall|i: int|
            0 <= i < decimal(number).len() ==> '0' as int <= #[trigger] decimal(number)[i] as int
                <= '9' as int,
        number > 0 ==> decimal(number)[0] != '0',
        number == 0 ==> decimal(number).len() == 1,
    decreases number,
{
    if number < 10 {
        let text = decimal(number);
        assert(text.drop_last() =~= seq![]);
        assert(decimal_value(text.drop_last()) == 0);
    } else {
        law_decimal_reads_back(number / 10);
        let text = decimal(number);
        assert(text.drop_last() =~= decimal(number / 10));
        assert forall|i: int| 0 <= i < text.len() implies '0' as int <= #[trigger] text[i] as int
            <= '9' as int by {
            if i < text.len() - 1 {
                assert(text[i] == decimal(number / 10)[i]);
            }
        }
        assert(text[0] == decimal(number / 10)[0]);
    }
}

/// The number that a hexadecimal digit stands for.
pub open spec fn hex_digit_value(digit: char) -> int {
    if digit as int <= '9' as int {
        digit as int - '0' as int
    } else {
        digit as int - 'a' as int + 10
    }
}

/// A hash is written as `0x` and two lower-case hexadecimal digits for each byte, which stand for
/// it, the upper half first.
pub proof fn law_hash_text_reads_back(hash: B256)
    ensures
        hash_text(hash).len() == 66,
        hash_text(hash)[0] == '0',
        hash_text(hash)[1] == 'x',
        forall|i: int|
            2 <= i < 66 ==> {
                let digit = #[trigger] hash_text(hash)[i] as int;
                '0' as int <= digit <= '9' as int || 'a' as int <= digit <= 'f' as int
            },
        forall|i: int|
            0 <= i < 32 ==> #[trigger] hash[i] == 16 * hex_digit_value(hash_text(hash)[2 + 2 * i])
                + hex_digit_value(hash_text(hash)[3 + 2 * i]),
{
    reveal_strlit("0x");
    let digits = hex(hash@);
    assert forall|i: int| 2 <= i < 66 implies {
        let digit = #[trigger] hash_text(hash)[i] as int;
        '0' as int <= digit <= '9' as int || 'a' as int <= digit <= 'f' as int
    } by {
        assert(hash_text(hash)[i] == digits[i - 2]);
    }
    assert forall|i: int| 0 <= i < 32 implies #[trigger] hash[i] == 16 * hex_digit_value(
        hash_text(hash)[2 + 2 * i],
    ) + hex_digit_value(hash_text(hash)[3 + 2 * i]) by {
        assert(hash_text(hash)[2 + 2 * i] == digits[2 * i]);
        assert(hash_text(hash)[3 + 2 * i] == digits[2 * i + 1]);
    }
}

/// The text of an error says what kind of error it is, in words of its own, and then what it holds:
/// counts in decimal, roots in hexadecimal with the computed one first, and reasons as they were
/// given.
pub proof fn law_message_says<C>(err: StatelessValidationError<C>, consensus: &str, text: String)
    requires
        call_ensures(StatelessValidationError::<C>::message, (&err, consensus), text),
    ensures
        (match err {
            StatelessValidationError::AncestorHeaderLimitExceeded { count, limit } => text@
                == "ancestor header count ("@ + decimal(count as nat) + ") exceeds limit ("@
                + decimal(limit as nat) + ")"@,
            StatelessValidationError::WitnessRevealFailed { pre_state_root } => text@
                == "failed to reveal witness data for pre-state root "@ + hash_text(
                pre_state_root,
            ),
            StatelessValidationError::StatelessExecutionFailed(reason) => text@
                == "stateless block execution failed: "@ + reason@,
            StatelessValidationError::ConsensusValidationFailed(_) => text@
                == "consensus validation failed: "@ + consensus@,
            StatelessValidationError::PostStateRootMismatch { got, expected } => text@
                == "mismatched post-state root: "@ + hash_text(got) + "\n "@ + hash_text(expected),
            StatelessValidationError::PreStateRootMismatch { got, expected } => text@
                == "mismatched pre-state root: "@ + hash_text(got) + " \n "@ + hash_text(expected),
            StatelessValidationError::Custom(custom) => text@ == custom@,
            StatelessValidationError::InvalidAncestorChain => text@ == "invalid ancestor chain"@,
            StatelessValidationError::StatelessStateRootCalculationFailed => text@
                == "stateless state root calculation failed"@,
            StatelessValidationError::StatelessPreStateRootCalculationFailed => text@
                == "stateless pre-state root calculation failed"@,
            StatelessValidationError::MissingAncestorHeader => text@
                == "missing required ancestor headers"@,
            StatelessValidationError::HeaderDeserializationFailed => text@
                == "could not deserialize ancestor headers"@,
            StatelessValidationError::SignerRecovery => text@ == "signer recovery failed"@,
            StatelessValidationError::HomesteadSignatureNotNormalized => text@
                == "signature s value not normalized for homestead block"@,
        }),
{
}

} // verus!
