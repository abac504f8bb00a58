//! Failures that stop the engine.

use vstd::prelude::*;
use crate::hex::{hex_word, push_hex_word};

verus! {

/// A fatal condition met while decoding or executing an instruction.
#[derive(Clone, Copy, Debug, PartialEq, Eq, Structural)]
pub enum EngineError {
    /// The word matches no opcode; it is carried along.
    DecodeError(u16),
    /// An instruction reached for memory outside `0x000..=0xFFF`.
    OutOfBoundsAccess,
    /// A call was made with sixteen return addresses already stored.
    StackOverflow,
    /// A return was made with no call to return from.
    StackUnderflow,
    /// The display and keyboard side is gone while the engine waits for a key.
    CollaboratorUnavailable,
}

impl EngineError {
    /// The text that reports this failure. A decode error names the
    /// offending word in hexadecimal.
    pub open spec fn message_spec(self) -> Seq<char> {
        match self {
            EngineError::DecodeError(word) => "Failed to parse instruction "@ + hex_word(word),
            EngineError::OutOfBoundsAccess => "Memory access out of bounds"@,
            EngineError::StackOverflow => "Call stack overflow"@,
            EngineError::StackUnderflow => "Return without a call"@,
            EngineError::CollaboratorUnavailable => "Window closed while waiting for a key"@,
        }
    }

    /// Renders this failure as text.
    pub fn message(&self) -> (text: String)
        ensures
            text@ == self.message_spec(),
    {
        match self {
            EngineError::DecodeError(word) => {
                let mut text = "Failed to parse instruction ".to_owned();
                push_hex_word(&mut text, *word);
                text
            },
            EngineError::OutOfBoundsAccess => "Memory access out of bounds".to_owned(),
            EngineError::StackOverflow => "Call stack overflow".to_owned(),
            EngineError::StackUnderflow => "Return without a call".to_owned(),
            EngineError::CollaboratorUnavailable => "Window closed while waiting for a key".to_owned(),
        }
    }
}

} // verus!
