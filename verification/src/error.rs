//! Failures the machine reports to its caller.

use vstd::prelude::*;

verus! {

/// A condition that stops a load or an instruction. The machine is left as it
/// was before the failing operation.
#[derive(Clone, Copy, Debug, PartialEq, Eq, Structural)]
pub enum Chip8Error {
    /// The program does not fit between the program start and the end of memory.
    LoadTooLarge,
    /// A call was made with sixteen return addresses already on the stack.
    StackOverflow,
    /// A return was made with no return address on the stack.
    StackUnderflow,
}

impl Chip8Error {
    /// The text of the diagnostic for this failure.
    pub open spec fn spec_message(self) -> Seq<char> {
        match self {
            Chip8Error::LoadTooLarge => "program is larger than 3584 bytes"@,
            Chip8Error::StackOverflow => "call stack overflow"@,
            Chip8Error::StackUnderflow => "call stack underflow"@,
        }
    }

    /// A diagnostic for this failure.
    pub fn message(&self) -> (text: String)
        ensures
            text@ == self.spec_message(),
    {
        match self {
            Chip8Error::LoadTooLarge => "program is larger than 3584 bytes".to_owned(),
            Chip8Error::StackOverflow => "call stack overflow".to_owned(),
            Chip8Error::StackUnderflow => "call stack underflow".to_owned(),
        }
    }
}

} // verus!
