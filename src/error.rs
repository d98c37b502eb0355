use vstd::prelude::*;

verus! {

/// The errors that a scan reports to its caller.
#[derive(Debug, Clone, PartialEq)]
pub enum LenzError {
    /// The bytecode buffer holds no byte at all.
    EmptyBytecode,
    /// A structural fault (decoding or control flow) at the given byte offset.
    ParseError(usize),
    /// Converting a report to its external form failed.
    SerializationError(String),
    /// Talking to a remote source or sink failed.
    RpcError(String),
}

/// Faults found while turning bytes into instructions.
#[derive(Debug, Clone, Copy, PartialEq, Eq)]
pub enum DecodeError {
    /// The buffer length is not a whole number of slots; the offset is where the partial slot starts.
    TruncatedInstruction(usize),
    /// The opcode byte at the offset is not part of the instruction set.
    IllegalOpcode(usize, u8),
    /// A two-slot instruction starts in the last slot.
    TruncatedWideInstruction(usize),
}

/// Faults found while linking instructions into a control-flow graph.
#[derive(Debug, Clone, Copy, PartialEq, Eq)]
pub enum CfgError {
    /// The branch at the source offset points at an offset where no instruction starts.
    InvalidBranchTarget(usize, i128),
    /// The instruction at the offset needs a successor, but the program ends there.
    UnterminatedProgram(usize),
}

impl DecodeError {
    /// The byte offset that the fault refers to.
    pub open spec fn spec_offset(self) -> usize {
        match self {
            DecodeError::TruncatedInstruction(o) => o,
            DecodeError::IllegalOpcode(o, _) => o,
            DecodeError::TruncatedWideInstruction(o) => o,
        }
    }

    pub fn offset(&self) -> (r: usize)
        ensures
            r == self.spec_offset(),
    {
        match self {
            DecodeError::TruncatedInstruction(o) => *o,
            DecodeError::IllegalOpcode(o, _) => *o,
            DecodeError::TruncatedWideInstruction(o) => *o,
        }
    }
}

impl CfgError {
    /// The offset of the instruction at fault.
    pub open spec fn spec_source(self) -> usize {
        match self {
            CfgError::InvalidBranchTarget(o, _) => o,
            CfgError::UnterminatedProgram(o) => o,
        }
    }

    pub fn source(&self) -> (r: usize)
        ensures
            r == self.spec_source(),
    {
        match self {
            CfgError::InvalidBranchTarget(o, _) => *o,
            CfgError::UnterminatedProgram(o) => *o,
        }
    }
}

} // verus!
