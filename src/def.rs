use vstd::prelude::*;

use crate::instruction::InstructionFormat;

verus! {

/// Every mnemonic the assembler knows: the canonical instructions first, then the
/// pseudo-instructions that expand into them.
#[derive(Debug, Clone, Copy, PartialEq, Eq, Structural)]
pub enum Mnemonic {
    Add,
    Sub,
    And,
    Or,
    Xor,
    Sll,
    Srl,
    Sra,
    Slt,
    Sltu,
    Mul,
    Addi,
    Andi,
    Ori,
    Xori,
    Slli,
    Srli,
    Srai,
    Slti,
    Sltiu,
    Lb,
    Lbu,
    Lh,
    Lhu,
    Lw,
    Sb,
    Sh,
    Sw,
    Beq,
    Bge,
    Bgeu,
    Blt,
    Bltu,
    Bne,
    Jal,
    Jalr,
    Auipc,
    Lui,
    Ebreak,
    Ecall,
    Beqz,
    Bnez,
    J,
    Jr,
    La,
    Li,
    Mv,
    Neg,
    Nop,
    Not,
    Ret,
}

/// How a mnemonic is written in assembly text (lower case).
pub open spec fn spelling(m: Mnemonic) -> Seq<char> {
    match m {
        Mnemonic::Add => seq!['a', 'd', 'd'],
        Mnemonic::Sub => seq!['s', 'u', 'b'],
        Mnemonic::And => seq!['a', 'n', 'd'],
        Mnemonic::Or => seq!['o', 'r'],
        Mnemonic::Xor => seq!['x', 'o', 'r'],
        Mnemonic::Sll => seq!['s', 'l', 'l'],
        Mnemonic::Srl => seq!['s', 'r', 'l'],
        Mnemonic::Sra => seq!['s', 'r', 'a'],
        Mnemonic::Slt => seq!['s', 'l', 't'],
        Mnemonic::Sltu => seq!['s', 'l', 't', 'u'],
        Mnemonic::Mul => seq!['m', 'u', 'l'],
        Mnemonic::Addi => seq!['a', 'd', 'd', 'i'],
        Mnemonic::Andi => seq!['a', 'n', 'd', 'i'],
        Mnemonic::Ori => seq!['o', 'r', 'i'],
        Mnemonic::Xori => seq!['x', 'o', 'r', 'i'],
        Mnemonic::Slli => seq!['s', 'l', 'l', 'i'],
        Mnemonic::Srli => seq!['s', 'r', 'l', 'i'],
        Mnemonic::Srai => seq!['s', 'r', 'a', 'i'],
        Mnemonic::Slti => seq!['s', 'l', 't', 'i'],
        Mnemonic::Sltiu => seq!['s', 'l', 't', 'i', 'u'],
        Mnemonic::Lb => seq!['l', 'b'],
        Mnemonic::Lbu => seq!['l', 'b', 'u'],
        Mnemonic::Lh => seq!['l', 'h'],
        Mnemonic::Lhu => seq!['l', 'h', 'u'],
        Mnemonic::Lw => seq!['l', 'w'],
        Mnemonic::Sb => seq!['s', 'b'],
        Mnemonic::Sh => seq!['s', 'h'],
        Mnemonic::Sw => seq!['s', 'w'],
        Mnemonic::Beq => seq!['b', 'e', 'q'],
        Mnemonic::Bge => seq!['b', 'g', 'e'],
        Mnemonic::Bgeu => seq!['b', 'g', 'e', 'u'],
        Mnemonic::Blt => seq!['b', 'l', 't'],
        Mnemonic::Bltu => seq!['b', 'l', 't', 'u'],
        Mnemonic::Bne => seq!['b', 'n', 'e'],
        Mnemonic::Jal => seq!['j', 'a', 'l'],
        Mnemonic::Jalr => seq!['j', 'a', 'l', 'r'],
        Mnemonic::Auipc => seq!['a', 'u', 'i', 'p', 'c'],
        Mnemonic::Lui => seq!['l', 'u', 'i'],
        Mnemonic::Ebreak => seq!['e', 'b', 'r', 'e', 'a', 'k'],
        Mnemonic::Ecall => seq!['e', 'c', 'a', 'l', 'l'],
        Mnemonic::Beqz => seq!['b', 'e', 'q', 'z'],
        Mnemonic::Bnez => seq!['b', 'n', 'e', 'z'],
        Mnemonic::J => seq!['j'],
        Mnemonic::Jr => seq!['j', 'r'],
        Mnemonic::La => seq!['l', 'a'],
        Mnemonic::Li => seq!['l', 'i'],
        Mnemonic::Mv => seq!['m', 'v'],
        Mnemonic::Neg => seq!['n', 'e', 'g'],
        Mnemonic::Nop => seq!['n', 'o', 'p'],
        Mnemonic::Not => seq!['n', 'o', 't'],
        Mnemonic::Ret => seq!['r', 'e', 't'],
    }
}

/// One row of the instruction table: opcode, funct3, funct7, mnemonic and format.
#[derive(Debug, Clone, Copy, PartialEq, Eq, Structural)]
pub struct ISetElem(pub u32, pub Option<u32>, pub Option<u32>, pub Mnemonic, pub InstructionFormat);

/// The instruction table: the row of each canonical mnemonic (none for a pseudo one).
pub open spec fn iset_row(m: Mnemonic) -> Option<ISetElem> {
    match m {
        Mnemonic::Add => Some(ISetElem(0b0110011, Some(0b000), Some(0b0000000), Mnemonic::Add, InstructionFormat::R)),
        Mnemonic::Sub => Some(ISetElem(0b0110011, Some(0b000), Some(0b0100000), Mnemonic::Sub, InstructionFormat::R)),
        Mnemonic::And => Some(ISetElem(0b0110011, Some(0b111), Some(0b0000000), Mnemonic::And, InstructionFormat::R)),
        Mnemonic::Or => Some(ISetElem(0b0110011, Some(0b110), Some(0b0000000), Mnemonic::Or, InstructionFormat::R)),
        Mnemonic::Xor => Some(ISetElem(0b0110011, Some(0b100), Some(0b0000000), Mnemonic::Xor, InstructionFormat::R)),
        Mnemonic::Sll => Some(ISetElem(0b0110011, Some(0b001), Some(0b0000000), Mnemonic::Sll, InstructionFormat::R)),
        Mnemonic::Srl => Some(ISetElem(0b0110011, Some(0b101), Some(0b0000000), Mnemonic::Srl, InstructionFormat::R)),
        Mnemonic::Sra => Some(ISetElem(0b0110011, Some(0b101), Some(0b0100000), Mnemonic::Sra, InstructionFormat::R)),
        Mnemonic::Slt => Some(ISetElem(0b0110011, Some(0b010), Some(0b0000000), Mnemonic::Slt, InstructionFormat::R)),
        Mnemonic::Sltu => Some(ISetElem(0b0110011, Some(0b011), Some(0b0000000), Mnemonic::Sltu, InstructionFormat::R)),
        Mnemonic::Mul => Some(ISetElem(0b0110011, Some(0b000), Some(0b0000001), Mnemonic::Mul, InstructionFormat::R)),
        Mnemonic::Addi => Some(ISetElem(0b0010011, Some(0b000), None, Mnemonic::Addi, InstructionFormat::I)),
        Mnemonic::Andi => Some(ISetElem(0b0010011, Some(0b111), None, Mnemonic::Andi, InstructionFormat::I)),
        Mnemonic::Ori => Some(ISetElem(0b0010011, Some(0b110), None, Mnemonic::Ori, InstructionFormat::I)),
        Mnemonic::Xori => Some(ISetElem(0b0010011, Some(0b100), None, Mnemonic::Xori, InstructionFormat::I)),
        Mnemonic::Slli => Some(ISetElem(0b0010011, Some(0b001), Some(0b0000000), Mnemonic::Slli, InstructionFormat::I)),
        Mnemonic::Srli => Some(ISetElem(0b0010011, Some(0b101), Some(0b0000000), Mnemonic::Srli, InstructionFormat::I)),
        Mnemonic::Srai => Some(ISetElem(0b0010011, Some(0b101), Some(0b0100000), Mnemonic::Srai, InstructionFormat::I)),
        Mnemonic::Slti => Some(ISetElem(0b0010011, Some(0b010), None, Mnemonic::Slti, InstructionFormat::I)),
        Mnemonic::Sltiu => Some(ISetElem(0b0010011, Some(0b011), None, Mnemonic::Sltiu, InstructionFormat::I)),
        Mnemonic::Lb => Some(ISetElem(0b0000011, Some(0b000), None, Mnemonic::Lb, InstructionFormat::I)),
        Mnemonic::Lbu => Some(ISetElem(0b0000011, Some(0b100), None, Mnemonic::Lbu, InstructionFormat::I)),
        Mnemonic::Lh => Some(ISetElem(0b0000011, Some(0b001), None, Mnemonic::Lh, InstructionFormat::I)),
        Mnemonic::Lhu => Some(ISetElem(0b0000011, Some(0b101), None, Mnemonic::Lhu, InstructionFormat::I)),
        Mnemonic::Lw => Some(ISetElem(0b0000011, Some(0b010), None, Mnemonic::Lw, InstructionFormat::I)),
        Mnemonic::Sb => Some(ISetElem(0b0100011, Some(0b000), None, Mnemonic::Sb, InstructionFormat::S)),
        Mnemonic::Sh => Some(ISetElem(0b0100011, Some(0b001), None, Mnemonic::Sh, InstructionFormat::S)),
        Mnemonic::Sw => Some(ISetElem(0b0100011, Some(0b010), None, Mnemonic::Sw, InstructionFormat::S)),
        Mnemonic::Beq => Some(ISetElem(0b1100011, Some(0b000), None, Mnemonic::Beq, InstructionFormat::B)),
        Mnemonic::Bge => Some(ISetElem(0b1100011, Some(0b101), None, Mnemonic::Bge, InstructionFormat::B)),
        Mnemonic::Bgeu => Some(ISetElem(0b1100011, Some(0b111), None, Mnemonic::Bgeu, InstructionFormat::B)),
        Mnemonic::Blt => Some(ISetElem(0b1100011, Some(0b100), None, Mnemonic::Blt, InstructionFormat::B)),
        Mnemonic::Bltu => Some(ISetElem(0b1100011, Some(0b110), None, Mnemonic::Bltu, InstructionFormat::B)),
        Mnemonic::Bne => Some(ISetElem(0b1100011, Some(0b001), None, Mnemonic::Bne, InstructionFormat::B)),
        Mnemonic::Jal => Some(ISetElem(0b1101111, None, None, Mnemonic::Jal, InstructionFormat::J)),
        Mnemonic::Jalr => Some(ISetElem(0b1100111, Some(0b000), None, Mnemonic::Jalr, InstructionFormat::I)),
        Mnemonic::Auipc => Some(ISetElem(0b0010111, None, None, Mnemonic::Auipc, InstructionFormat::U)),
        Mnemonic::Lui => Some(ISetElem(0b0110111, None, None, Mnemonic::Lui, InstructionFormat::U)),
        Mnemonic::Ebreak => Some(ISetElem(0b1110011, Some(0b000), None, Mnemonic::Ebreak, InstructionFormat::I)),
        Mnemonic::Ecall => Some(ISetElem(0b1110011, Some(0b000), None, Mnemonic::Ecall, InstructionFormat::I)),
        _ => None,
    }
}

/// The assembly spelling of a spelled-out mnemonic, if `text` is one.
pub open spec fn mnemonic_of(text: Seq<char>) -> Option<Mnemonic> {
    if text == seq!['a', 'd', 'd'] {
        Some(Mnemonic::Add)
    } else if text == seq!['s', 'u', 'b'] {
        Some(Mnemonic::Sub)
    } else if text == seq!['a', 'n', 'd'] {
        Some(Mnemonic::And)
    } else if text == seq!['o', 'r'] {
        Some(Mnemonic::Or)
    } else if text == seq!['x', 'o', 'r'] {
        Some(Mnemonic::Xor)
    } else if text == seq!['s', 'l', 'l'] {
        Some(Mnemonic::Sll)
    } else if text == seq!['s', 'r', 'l'] {
        Some(Mnemonic::Srl)
    } else if text == seq!['s', 'r', 'a'] {
        Some(Mnemonic::Sra)
    } else if text == seq!['s', 'l', 't'] {
        Some(Mnemonic::Slt)
    } else if text == seq!['s', 'l', 't', 'u'] {
        Some(Mnemonic::Sltu)
    } else if text == seq!['m', 'u', 'l'] {
        Some(Mnemonic::Mul)
    } else if text == seq!['a', 'd', 'd', 'i'] {
        Some(Mnemonic::Addi)
    } else if text == seq!['a', 'n', 'd', 'i'] {
        Some(Mnemonic::Andi)
    } else if text == seq!['o', 'r', 'i'] {
        Some(Mnemonic::Ori)
    } else if text == seq!['x', 'o', 'r', 'i'] {
        Some(Mnemonic::Xori)
    } else if text == seq!['s', 'l', 'l', 'i'] {
        Some(Mnemonic::Slli)
    } else if text == seq!['s', 'r', 'l', 'i'] {
        Some(Mnemonic::Srli)
    } else if text == seq!['s', 'r', 'a', 'i'] {
        Some(Mnemonic::Srai)
    } else if text == seq!['s', 'l', 't', 'i'] {
        Some(Mnemonic::Slti)
    } else if text == seq!['s', 'l', 't', 'i', 'u'] {
        Some(Mnemonic::Sltiu)
    } else if text == seq!['l', 'b'] {
        Some(Mnemonic::Lb)
    } else if text == seq!['l', 'b', 'u'] {
        Some(Mnemonic::Lbu)
    } else if text == seq!['l', 'h'] {
        Some(Mnemonic::Lh)
    } else if text == seq!['l', 'h', 'u'] {
        Some(Mnemonic::Lhu)
    } else if text == seq!['l', 'w'] {
        Some(Mnemonic::Lw)
    } else if text == seq!['s', 'b'] {
        Some(Mnemonic::Sb)
    } else if text == seq!['s', 'h'] {
        Some(Mnemonic::Sh)
    } else if text == seq!['s', 'w'] {
        Some(Mnemonic::Sw)
    } else if text == seq!['b', 'e', 'q'] {
        Some(Mnemonic::Beq)
    } else if text == seq!['b', 'g', 'e'] {
        Some(Mnemonic::Bge)
    } else if text == seq!['b', 'g', 'e', 'u'] {
        Some(Mnemonic::Bgeu)
    } else if text == seq!['b', 'l', 't'] {
        Some(Mnemonic::Blt)
    } else if text == seq!['b', 'l', 't', 'u'] {
        Some(Mnemonic::Bltu)
    } else if text == seq!['b', 'n', 'e'] {
        Some(Mnemonic::Bne)
    } else if text == seq!['j', 'a', 'l'] {
        Some(Mnemonic::Jal)
    } else if text == seq!['j', 'a', 'l', 'r'] {
        Some(Mnemonic::Jalr)
    } else if text == seq!['a', 'u', 'i', 'p', 'c'] {
        Some(Mnemonic::Auipc)
    } else if text == seq!['l', 'u', 'i'] {
        Some(Mnemonic::Lui)
    } else if text == seq!['e', 'b', 'r', 'e', 'a', 'k'] {
        Some(Mnemonic::Ebreak)
    } else if text == seq!['e', 'c', 'a', 'l', 'l'] {
        Some(Mnemonic::Ecall)
    } else if text == seq!['b', 'e', 'q', 'z'] {
        Some(Mnemonic::Beqz)
    } else if text == seq!['b', 'n', 'e', 'z'] {
        Some(Mnemonic::Bnez)
    } else if text == seq!['j'] {
        Some(Mnemonic::J)
    } else if text == seq!['j', 'r'] {
        Some(Mnemonic::Jr)
    } else if text == seq!['l', 'a'] {
        Some(Mnemonic::La)
    } else if text == seq!['l', 'i'] {
        Some(Mnemonic::Li)
    } else if text == seq!['m', 'v'] {
        Some(Mnemonic::Mv)
    } else if text == seq!['n', 'e', 'g'] {
        Some(Mnemonic::Neg)
    } else if text == seq!['n', 'o', 'p'] {
        Some(Mnemonic::Nop)
    } else if text == seq!['n', 'o', 't'] {
        Some(Mnemonic::Not)
    } else if text == seq!['r', 'e', 't'] {
        Some(Mnemonic::Ret)
    } else {
        None
    }
}

impl Mnemonic {
    /// The instruction-table row of this mnemonic; `None` for a pseudo-instruction.
    pub fn iset_row(self) -> (r: Option<ISetElem>)
        ensures
            r == iset_row(self),
    {
        match self {
            Mnemonic::Add => Some(ISetElem(0b0110011, Some(0b000), Some(0b0000000), Mnemonic::Add, InstructionFormat::R)),
            Mnemonic::Sub => Some(ISetElem(0b0110011, Some(0b000), Some(0b0100000), Mnemonic::Sub, InstructionFormat::R)),
            Mnemonic::And => Some(ISetElem(0b0110011, Some(0b111), Some(0b0000000), Mnemonic::And, InstructionFormat::R)),
            Mnemonic::Or => Some(ISetElem(0b0110011, Some(0b110), Some(0b0000000), Mnemonic::Or, InstructionFormat::R)),
            Mnemonic::Xor => Some(ISetElem(0b0110011, Some(0b100), Some(0b0000000), Mnemonic::Xor, InstructionFormat::R)),
            Mnemonic::Sll => Some(ISetElem(0b0110011, Some(0b001), Some(0b0000000), Mnemonic::Sll, InstructionFormat::R)),
            Mnemonic::Srl => Some(ISetElem(0b0110011, Some(0b101), Some(0b0000000), Mnemonic::Srl, InstructionFormat::R)),
            Mnemonic::Sra => Some(ISetElem(0b0110011, Some(0b101), Some(0b0100000), Mnemonic::Sra, InstructionFormat::R)),
            Mnemonic::Slt => Some(ISetElem(0b0110011, Some(0b010), Some(0b0000000), Mnemonic::Slt, InstructionFormat::R)),
            Mnemonic::Sltu => Some(ISetElem(0b0110011, Some(0b011), Some(0b0000000), Mnemonic::Sltu, InstructionFormat::R)),
            Mnemonic::Mul => Some(ISetElem(0b0110011, Some(0b000), Some(0b0000001), Mnemonic::Mul, InstructionFormat::R)),
            Mnemonic::Addi => Some(ISetElem(0b0010011, Some(0b000), None, Mnemonic::Addi, InstructionFormat::I)),
            Mnemonic::Andi => Some(ISetElem(0b0010011, Some(0b111), None, Mnemonic::Andi, InstructionFormat::I)),
            Mnemonic::Ori => Some(ISetElem(0b0010011, Some(0b110), None, Mnemonic::Ori, InstructionFormat::I)),
            Mnemonic::Xori => Some(ISetElem(0b0010011, Some(0b100), None, Mnemonic::Xori, InstructionFormat::I)),
            Mnemonic::Slli => Some(ISetElem(0b0010011, Some(0b001), Some(0b0000000), Mnemonic::Slli, InstructionFormat::I)),
            Mnemonic::Srli => Some(ISetElem(0b0010011, Some(0b101), Some(0b0000000), Mnemonic::Srli, InstructionFormat::I)),
            Mnemonic::Srai => Some(ISetElem(0b0010011, Some(0b101), Some(0b0100000), Mnemonic::Srai, InstructionFormat::I)),
            Mnemonic::Slti => Some(ISetElem(0b0010011, Some(0b010), None, Mnemonic::Slti, InstructionFormat::I)),
            Mnemonic::Sltiu => Some(ISetElem(0b0010011, Some(0b011), None, Mnemonic::Sltiu, InstructionFormat::I)),
            Mnemonic::Lb => Some(ISetElem(0b0000011, Some(0b000), None, Mnemonic::Lb, InstructionFormat::I)),
            Mnemonic::Lbu => Some(ISetElem(0b0000011, Some(0b100), None, Mnemonic::Lbu, InstructionFormat::I)),
            Mnemonic::Lh => Some(ISetElem(0b0000011, Some(0b001), None, Mnemonic::Lh, InstructionFormat::I)),
            Mnemonic::Lhu => Some(ISetElem(0b0000011, Some(0b101), None, Mnemonic::Lhu, InstructionFormat::I)),
            Mnemonic::Lw => Some(ISetElem(0b0000011, Some(0b010), None, Mnemonic::Lw, InstructionFormat::I)),
            Mnemonic::Sb => Some(ISetElem(0b0100011, Some(0b000), None, Mnemonic::Sb, InstructionFormat::S)),
            Mnemonic::Sh => Some(ISetElem(0b0100011, Some(0b001), None, Mnemonic::Sh, InstructionFormat::S)),
            Mnemonic::Sw => Some(ISetElem(0b0100011, Some(0b010), None, Mnemonic::Sw, InstructionFormat::S)),
            Mnemonic::Beq => Some(ISetElem(0b1100011, Some(0b000), None, Mnemonic::Beq, InstructionFormat::B)),
            Mnemonic::Bge => Some(ISetElem(0b1100011, Some(0b101), None, Mnemonic::Bge, InstructionFormat::B)),
            Mnemonic::Bgeu => Some(ISetElem(0b1100011, Some(0b111), None, Mnemonic::Bgeu, InstructionFormat::B)),
            Mnemonic::Blt => Some(ISetElem(0b1100011, Some(0b100), None, Mnemonic::Blt, InstructionFormat::B)),
            Mnemonic::Bltu => Some(ISetElem(0b1100011, Some(0b110), None, Mnemonic::Bltu, InstructionFormat::B)),
            Mnemonic::Bne => Some(ISetElem(0b1100011, Some(0b001), None, Mnemonic::Bne, InstructionFormat::B)),
            Mnemonic::Jal => Some(ISetElem(0b1101111, None, None, Mnemonic::Jal, InstructionFormat::J)),
            Mnemonic::Jalr => Some(ISetElem(0b1100111, Some(0b000), None, Mnemonic::Jalr, InstructionFormat::I)),
            Mnemonic::Auipc => Some(ISetElem(0b0010111, None, None, Mnemonic::Auipc, InstructionFormat::U)),
            Mnemonic::Lui => Some(ISetElem(0b0110111, None, None, Mnemonic::Lui, InstructionFormat::U)),
            Mnemonic::Ebreak => Some(ISetElem(0b1110011, Some(0b000), None, Mnemonic::Ebreak, InstructionFormat::I)),
            Mnemonic::Ecall => Some(ISetElem(0b1110011, Some(0b000), None, Mnemonic::Ecall, InstructionFormat::I)),
            _ => None,
        }
    }

    /// The assembly spelling of this mnemonic.
    pub fn text(self) -> (r: Vec<char>)
        ensures
            r@ == spelling(self),
    {
        match self {
            Mnemonic::Add => vec!['a', 'd', 'd'],
            Mnemonic::Sub => vec!['s', 'u', 'b'],
            Mnemonic::And => vec!['a', 'n', 'd'],
            Mnemonic::Or => vec!['o', 'r'],
            Mnemonic::Xor => vec!['x', 'o', 'r'],
            Mnemonic::Sll => vec!['s', 'l', 'l'],
            Mnemonic::Srl => vec!['s', 'r', 'l'],
            Mnemonic::Sra => vec!['s', 'r', 'a'],
            Mnemonic::Slt => vec!['s', 'l', 't'],
            Mnemonic::Sltu => vec!['s', 'l', 't', 'u'],
            Mnemonic::Mul => vec!['m', 'u', 'l'],
            Mnemonic::Addi => vec!['a', 'd', 'd', 'i'],
            Mnemonic::Andi => vec!['a', 'n', 'd', 'i'],
            Mnemonic::Ori => vec!['o', 'r', 'i'],
            Mnemonic::Xori => vec!['x', 'o', 'r', 'i'],
            Mnemonic::Slli => vec!['s', 'l', 'l', 'i'],
            Mnemonic::Srli => vec!['s', 'r', 'l', 'i'],
            Mnemonic::Srai => vec!['s', 'r', 'a', 'i'],
            Mnemonic::Slti => vec!['s', 'l', 't', 'i'],
            Mnemonic::Sltiu => vec!['s', 'l', 't', 'i', 'u'],
            Mnemonic::Lb => vec!['l', 'b'],
            Mnemonic::Lbu => vec!['l', 'b', 'u'],
            Mnemonic::Lh => vec!['l', 'h'],
            Mnemonic::Lhu => vec!['l', 'h', 'u'],
            Mnemonic::Lw => vec!['l', 'w'],
            Mnemonic::Sb => vec!['s', 'b'],
            Mnemonic::Sh => vec!['s', 'h'],
            Mnemonic::Sw => vec!['s', 'w'],
            Mnemonic::Beq => vec!['b', 'e', 'q'],
            Mnemonic::Bge => vec!['b', 'g', 'e'],
            Mnemonic::Bgeu => vec!['b', 'g', 'e', 'u'],
            Mnemonic::Blt => vec!['b', 'l', 't'],
            Mnemonic::Bltu => vec!['b', 'l', 't', 'u'],
            Mnemonic::Bne => vec!['b', 'n', 'e'],
            Mnemonic::Jal => vec!['j', 'a', 'l'],
            Mnemonic::Jalr => vec!['j', 'a', 'l', 'r'],
            Mnemonic::Auipc => vec!['a', 'u', 'i', 'p', 'c'],
            Mnemonic::Lui => vec!['l', 'u', 'i'],
            Mnemonic::Ebreak => vec!['e', 'b', 'r', 'e', 'a', 'k'],
            Mnemonic::Ecall => vec!['e', 'c', 'a', 'l', 'l'],
            Mnemonic::Beqz => vec!['b', 'e', 'q', 'z'],
            Mnemonic::Bnez => vec!['b', 'n', 'e', 'z'],
            Mnemonic::J => vec!['j'],
            Mnemonic::Jr => vec!['j', 'r'],
            Mnemonic::La => vec!['l', 'a'],
            Mnemonic::Li => vec!['l', 'i'],
            Mnemonic::Mv => vec!['m', 'v'],
            Mnemonic::Neg => vec!['n', 'e', 'g'],
            Mnemonic::Nop => vec!['n', 'o', 'p'],
            Mnemonic::Not => vec!['n', 'o', 't'],
            Mnemonic::Ret => vec!['r', 'e', 't'],
        }
    }
}

/// The mnemonic spelled `text`, if there is one.
pub fn mnemonic_from_text(text: &[char]) -> (r: Option<Mnemonic>)
    ensures
        r == mnemonic_of(text@),
{
    if crate::text::chars_eq(text, Mnemonic::Add.text().as_slice()) {
        Some(Mnemonic::Add)
    } else if crate::text::chars_eq(text, Mnemonic::Sub.text().as_slice()) {
        Some(Mnemonic::Sub)
    } else if crate::text::chars_eq(text, Mnemonic::And.text().as_slice()) {
        Some(Mnemonic::And)
    } else if crate::text::chars_eq(text, Mnemonic::Or.text().as_slice()) {
        Some(Mnemonic::Or)
    } else if crate::text::chars_eq(text, Mnemonic::Xor.text().as_slice()) {
        Some(Mnemonic::Xor)
    } else if crate::text::chars_eq(text, Mnemonic::Sll.text().as_slice()) {
        Some(Mnemonic::Sll)
    } else if crate::text::chars_eq(text, Mnemonic::Srl.text().as_slice()) {
        Some(Mnemonic::Srl)
    } else if crate::text::chars_eq(text, Mnemonic::Sra.text().as_slice()) {
        Some(Mnemonic::Sra)
    } else if crate::text::chars_eq(text, Mnemonic::Slt.text().as_slice()) {
        Some(Mnemonic::Slt)
    } else if crate::text::chars_eq(text, Mnemonic::Sltu.text().as_slice()) {
        Some(Mnemonic::Sltu)
    } else if crate::text::chars_eq(text, Mnemonic::Mul.text().as_slice()) {
        Some(Mnemonic::Mul)
    } else if crate::text::chars_eq(text, Mnemonic::Addi.text().as_slice()) {
        Some(Mnemonic::Addi)
    } else if crate::text::chars_eq(text, Mnemonic::Andi.text().as_slice()) {
        Some(Mnemonic::Andi)
    } else if crate::text::chars_eq(text, Mnemonic::Ori.text().as_slice()) {
        Some(Mnemonic::Ori)
    } else if crate::text::chars_eq(text, Mnemonic::Xori.text().as_slice()) {
        Some(Mnemonic::Xori)
    } else if crate::text::chars_eq(text, Mnemonic::Slli.text().as_slice()) {
        Some(Mnemonic::Slli)
    } else if crate::text::chars_eq(text, Mnemonic::Srli.text().as_slice()) {
        Some(Mnemonic::Srli)
    } else if crate::text::chars_eq(text, Mnemonic::Srai.text().as_slice()) {
        Some(Mnemonic::Srai)
    } else if crate::text::chars_eq(text, Mnemonic::Slti.text().as_slice()) {
        Some(Mnemonic::Slti)
    } else if crate::text::chars_eq(text, Mnemonic::Sltiu.text().as_slice()) {
        Some(Mnemonic::Sltiu)
    } else if crate::text::chars_eq(text, Mnemonic::Lb.text().as_slice()) {
        Some(Mnemonic::Lb)
    } else if crate::text::chars_eq(text, Mnemonic::Lbu.text().as_slice()) {
        Some(Mnemonic::Lbu)
    } else if crate::text::chars_eq(text, Mnemonic::Lh.text().as_slice()) {
        Some(Mnemonic::Lh)
    } else if crate::text::chars_eq(text, Mnemonic::Lhu.text().as_slice()) {
        Some(Mnemonic::Lhu)
    } else if crate::text::chars_eq(text, Mnemonic::Lw.text().as_slice()) {
        Some(Mnemonic::Lw)
    } else if crate::text::chars_eq(text, Mnemonic::Sb.text().as_slice()) {
        Some(Mnemonic::Sb)
    } else if crate::text::chars_eq(text, Mnemonic::Sh.text().as_slice()) {
        Some(Mnemonic::Sh)
    } else if crate::text::chars_eq(text, Mnemonic::Sw.text().as_slice()) {
        Some(Mnemonic::Sw)
    } else if crate::text::chars_eq(text, Mnemonic::Beq.text().as_slice()) {
        Some(Mnemonic::Beq)
    } else if crate::text::chars_eq(text, Mnemonic::Bge.text().as_slice()) {
        Some(Mnemonic::Bge)
    } else if crate::text::chars_eq(text, Mnemonic::Bgeu.text().as_slice()) {
        Some(Mnemonic::Bgeu)
    } else if crate::text::chars_eq(text, Mnemonic::Blt.text().as_slice()) {
        Some(Mnemonic::Blt)
    } else if crate::text::chars_eq(text, Mnemonic::Bltu.text().as_slice()) {
        Some(Mnemonic::Bltu)
    } else if crate::text::chars_eq(text, Mnemonic::Bne.text().as_slice()) {
        Some(Mnemonic::Bne)
    } else if crate::text::chars_eq(text, Mnemonic::Jal.text().as_slice()) {
        Some(Mnemonic::Jal)
    } else if crate::text::chars_eq(text, Mnemonic::Jalr.text().as_slice()) {
        Some(Mnemonic::Jalr)
    } else if crate::text::chars_eq(text, Mnemonic::Auipc.text().as_slice()) {
        Some(Mnemonic::Auipc)
    } else if crate::text::chars_eq(text, Mnemonic::Lui.text().as_slice()) {
        Some(Mnemonic::Lui)
    } else if crate::text::chars_eq(text, Mnemonic::Ebreak.text().as_slice()) {
        Some(Mnemonic::Ebreak)
    } else if crate::text::chars_eq(text, Mnemonic::Ecall.text().as_slice()) {
        Some(Mnemonic::Ecall)
    } else if crate::text::chars_eq(text, Mnemonic::Beqz.text().as_slice()) {
        Some(Mnemonic::Beqz)
    } else if crate::text::chars_eq(text, Mnemonic::Bnez.text().as_slice()) {
        Some(Mnemonic::Bnez)
    } else if crate::text::chars_eq(text, Mnemonic::J.text().as_slice()) {
        Some(Mnemonic::J)
    } else if crate::text::chars_eq(text, Mnemonic::Jr.text().as_slice()) {
        Some(Mnemonic::Jr)
    } else if crate::text::chars_eq(text, Mnemonic::La.text().as_slice()) {
        Some(Mnemonic::La)
    } else if crate::text::chars_eq(text, Mnemonic::Li.text().as_slice()) {
        Some(Mnemonic::Li)
    } else if crate::text::chars_eq(text, Mnemonic::Mv.text().as_slice()) {
        Some(Mnemonic::Mv)
    } else if crate::text::chars_eq(text, Mnemonic::Neg.text().as_slice()) {
        Some(Mnemonic::Neg)
    } else if crate::text::chars_eq(text, Mnemonic::Nop.text().as_slice()) {
        Some(Mnemonic::Nop)
    } else if crate::text::chars_eq(text, Mnemonic::Not.text().as_slice()) {
        Some(Mnemonic::Not)
    } else if crate::text::chars_eq(text, Mnemonic::Ret.text().as_slice()) {
        Some(Mnemonic::Ret)
    } else {
        None
    }
}

} // verus!
