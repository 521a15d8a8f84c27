//! The fatal errors a run can surface.
//!
//! Every kind aborts the run immediately: the machine has no partial-failure
//! or recovery semantics. Reaching the edge of the program grid during a
//! fetch is not an error; it is the designed way a program without an
//! explicit `Halt` terminates.

use vstd::prelude::*;

verus! {

/// The single terminal error a run reports.
#[derive(Clone, Copy, Debug, PartialEq, Eq, Structural)]
pub enum Error {
    /// The program or input grid exceeds 4096 pixels in either dimension;
    /// checked before execution begins, never mid-run.
    OversizedImage,
    /// A register index falls outside 0..=31. Defensive: unreachable through
    /// the decoder, whose 5-bit field cannot express a larger index.
    InvalidRegister,
    /// A dereferenced operand, a jump or call target, or a memory range
    /// resolves to a coordinate outside the program grid's bounds.
    AddressOutOfBounds,
    /// `Return` or `Pop` executed against an empty call/return stack.
    StackUnderflow,
    /// `Divide` or `Modulo` with a zero second operand.
    ArithmeticFault,
    /// The bytes handed to the image-loading boundary do not decode to a
    /// pixel grid. Reported by that boundary, never by the running machine.
    MalformedImage,
    /// The caller-imposed step budget ran out before the machine halted.
    /// The instruction set admits unbounded loops, so every run carries
    /// such a bound; the machine itself never raises this mid-cycle.
    StepLimitExceeded,
}

impl Error {
    /// The fixed description of each error kind.
    pub open spec fn message_spec(self) -> Seq<char> {
        match self {
            Error::OversizedImage => "Image is too large"@,
            Error::InvalidRegister => "Invalid register"@,
            Error::AddressOutOfBounds => "Address out of bounds"@,
            Error::StackUnderflow => "Stack underflow"@,
            Error::ArithmeticFault => "Division or modulo by zero"@,
            Error::MalformedImage => "Failed reading image"@,
            Error::StepLimitExceeded => "Step limit exceeded"@,
        }
    }

    /// A short human-readable description of the error.
    pub fn message(&self) -> (r: String)
        ensures
            r@ == self.message_spec(),
    {
        match self {
            Error::OversizedImage => "Image is too large".to_string(),
            Error::InvalidRegister => "Invalid register".to_string(),
            Error::AddressOutOfBounds => "Address out of bounds".to_string(),
            Error::StackUnderflow => "Stack underflow".to_string(),
            Error::ArithmeticFault => "Division or modulo by zero".to_string(),
            Error::MalformedImage => "Failed reading image".to_string(),
            Error::StepLimitExceeded => "Step limit exceeded".to_string(),
        }
    }
}

} // verus!
