use vstd::prelude::*;

verus! {

/// Failure of a decode call.
///
/// Any shortfall of bytes or unknown opcode is a hard failure: the in-progress
/// decode is aborted and no partially-populated entity is returned.
#[derive(Debug, Clone, Copy, PartialEq, Eq, Structural)]
pub enum DecodeError {
    /// Fewer bytes remain in the source than a fixed-size field, a bitfield
    /// header, or a computed variable-length payload requires.
    UnexpectedEnd,
    /// The opcode byte of a microcode-command header matches none of the
    /// known commands.
    UnknownOpcode(u8),
}

} // verus!
