use vstd::prelude::*;

verus! {

/// Every way in which assembling a program or executing an instruction can fail.
#[derive(Debug, Clone, PartialEq, Eq)]
pub enum Error {
    /// The first token of a line names no instruction, or the mnemonic has no encoding.
    UnknownMnemonic(String),
    /// An operand that should name a register does not.
    InvalidRegister(String),
    /// An operand that should be a decimal literal is malformed or out of `i32` range.
    InvalidImmediate(String),
    /// The instruction with this mnemonic lacks one of its operands.
    MissingOperand(String),
    /// A label is referenced but never defined.
    UnresolvedLabel(String),
    /// The distance to this label does not fit a 32-bit offset.
    OffsetOutOfRange(String),
    /// A register number that does not fit the 5-bit register fields.
    RegisterOutOfRange(u32),
    /// An immediate that the instruction's encoding cannot hold.
    ImmediateOutOfRange(i32),
    /// The 7-bit opcode belongs to no instruction format.
    UnsupportedOpcode(u32),
    /// The instruction word's opcode is known but the rest of it is not.
    InvalidInstruction(u32),
    /// A load, store or fetch at this address reaches past the end of its buffer.
    OutOfBounds(u32),
}

/// An [`Error`] with its strings seen as character sequences.
pub enum ErrorView {
    UnknownMnemonic(Seq<char>),
    InvalidRegister(Seq<char>),
    InvalidImmediate(Seq<char>),
    MissingOperand(Seq<char>),
    UnresolvedLabel(Seq<char>),
    OffsetOutOfRange(Seq<char>),
    RegisterOutOfRange(u32),
    ImmediateOutOfRange(i32),
    UnsupportedOpcode(u32),
    InvalidInstruction(u32),
    OutOfBounds(u32),
}

impl View for Error {
    type V = ErrorView;

    open spec fn view(&self) -> ErrorView {
        match self {
            Error::UnknownMnemonic(s) => ErrorView::UnknownMnemonic(s@),
            Error::InvalidRegister(s) => ErrorView::InvalidRegister(s@),
            Error::InvalidImmediate(s) => ErrorView::InvalidImmediate(s@),
            Error::MissingOperand(s) => ErrorView::MissingOperand(s@),
            Error::UnresolvedLabel(s) => ErrorView::UnresolvedLabel(s@),
            Error::OffsetOutOfRange(s) => ErrorView::OffsetOutOfRange(s@),
            Error::RegisterOutOfRange(r) => ErrorView::RegisterOutOfRange(*r),
            Error::ImmediateOutOfRange(v) => ErrorView::ImmediateOutOfRange(*v),
            Error::UnsupportedOpcode(o) => ErrorView::UnsupportedOpcode(*o),
            Error::InvalidInstruction(w) => ErrorView::InvalidInstruction(*w),
            Error::OutOfBounds(a) => ErrorView::OutOfBounds(*a),
        }
    }
}

} // verus!
