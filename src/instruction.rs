use vstd::prelude::*;

use crate::error::Error;

verus! {

/// One encoded 32-bit instruction word.
#[derive(Clone, Copy, PartialEq, Eq, Structural, PartialOrd, Ord, Debug)]
pub struct Instruction(pub u32);

/// The bit-layout families of instruction words.
#[derive(Debug, Clone, Copy, PartialEq, Eq, Structural)]
pub enum InstructionFormat {
    R,
    I,
    S,
    B,
    U,
    J,
}

/// A run of `width` one-bits at the bottom of a word.
pub open spec fn low_mask(width: u32) -> u32 {
    ((1u32 << width) - 1) as u32
}

pub open spec fn opcode_of(w: u32) -> u32 {
    w & 0x7f
}

pub open spec fn rd_of(w: u32) -> u32 {
    (w >> 7u32) & 0x1f
}

pub open spec fn funct3_of(w: u32) -> u32 {
    (w >> 12u32) & 0x7
}

pub open spec fn rs1_of(w: u32) -> u32 {
    (w >> 15u32) & 0x1f
}

pub open spec fn rs2_of(w: u32) -> u32 {
    (w >> 20u32) & 0x1f
}

pub open spec fn funct7_of(w: u32) -> u32 {
    (w >> 25u32) & 0x7f
}

/// `w` with the field of mask `mask` at bit `lo` cleared and `v` written there.
pub open spec fn with_field(w: u32, mask: u32, lo: u32, v: u32) -> u32 {
    (w & !(mask << lo)) | (v << lo)
}

/// The format that an opcode selects, if it is one of the supported opcodes.
pub open spec fn format_of(opcode: u32) -> Option<InstructionFormat> {
    if opcode == 0b0110011 {
        Some(InstructionFormat::R)
    } else if opcode == 0b0010011 || opcode == 0b0000011 || opcode == 0b1100111 || opcode
        == 0b1110011 {
        Some(InstructionFormat::I)
    } else if opcode == 0b0100011 {
        Some(InstructionFormat::S)
    } else if opcode == 0b1100011 {
        Some(InstructionFormat::B)
    } else if opcode == 0b1101111 {
        Some(InstructionFormat::J)
    } else if opcode == 0b0010111 || opcode == 0b0110111 {
        Some(InstructionFormat::U)
    } else {
        None
    }
}

/// A piece (word bit, immediate bit, width) can be moved within 32 bits.
pub open spec fn piece_ok(p: (u32, u32, u32)) -> bool {
    0 < p.2 && p.2 < 32 && p.0 + p.2 <= 32 && p.1 + p.2 <= 32
}

pub open spec fn pieces_ok(ps: Seq<(u32, u32, u32)>) -> bool {
    forall|i: int| 0 <= i < ps.len() ==> piece_ok(#[trigger] ps[i])
}

/// The `width` bits of `w` at `src`, placed at bit `dst` of the immediate.
pub open spec fn piece_value(w: u32, src: u32, dst: u32, width: u32) -> u32 {
    ((w >> src) & low_mask(width)) << dst
}

/// The bits of the first `n` pieces of `ps`, gathered from `w`.
pub open spec fn gather(w: u32, ps: Seq<(u32, u32, u32)>, n: nat) -> u32
    decreases n,
{
    if n == 0 {
        0
    } else {
        gather(w, ps, (n - 1) as nat) | piece_value(w, ps[n - 1].0, ps[n - 1].1, ps[n - 1].2)
    }
}

/// The highest immediate bit written by the first `n` pieces of `ps` (0 for none).
pub open spec fn highest_bit(ps: Seq<(u32, u32, u32)>, n: nat) -> u32
    decreases n,
{
    if n == 0 {
        0
    } else {
        let top = (ps[n - 1].1 + ps[n - 1].2 - 1) as u32;
        let below = highest_bit(ps, (n - 1) as nat);
        if top > below {
            top
        } else {
            below
        }
    }
}

/// `v` with bit `bit` copied into every bit above it.
pub open spec fn sign_extend_at(v: u32, bit: u32) -> u32 {
    if v & (1u32 << bit) != 0 {
        v | !(((1u32 << bit) - 1) as u32)
    } else {
        v
    }
}

/// The immediate that the pieces `ps` describe in word `w`.
pub open spec fn imm_of_pieces(w: u32, ps: Seq<(u32, u32, u32)>, sign_extend: bool) -> i32 {
    let raw = gather(w, ps, ps.len());
    if sign_extend {
        sign_extend_at(raw, highest_bit(ps, ps.len())) as i32
    } else {
        raw as i32
    }
}

/// `w` with the bits of `v` that the first `n` pieces of `ps` describe ORed in.
pub open spec fn scatter(w: u32, v: u32, ps: Seq<(u32, u32, u32)>, n: nat) -> u32
    decreases n,
{
    if n == 0 {
        w
    } else {
        scatter(w, v, ps, (n - 1) as nat) | (((v >> ps[n - 1].1) & low_mask(ps[n - 1].2))
            << ps[n - 1].0)
    }
}

/// The immediate layout of each format, as (word bit, immediate bit, width) pieces.
pub open spec fn format_pieces(f: InstructionFormat) -> Seq<(u32, u32, u32)> {
    match f {
        InstructionFormat::R => seq![],
        InstructionFormat::I => seq![(20u32, 0u32, 12u32)],
        InstructionFormat::S => seq![(7u32, 0u32, 5u32), (25u32, 5u32, 7u32)],
        InstructionFormat::B => seq![
            (7u32, 11u32, 1u32),
            (8u32, 1u32, 4u32),
            (25u32, 5u32, 6u32),
            (31u32, 12u32, 1u32),
        ],
        InstructionFormat::U => seq![(12u32, 12u32, 20u32)],
        InstructionFormat::J => seq![
            (12u32, 12u32, 8u32),
            (20u32, 11u32, 1u32),
            (21u32, 1u32, 10u32),
            (31u32, 20u32, 1u32),
        ],
    }
}

/// The immediate of word `w` read in format `f` (R words have none: 0).
pub open spec fn decode_imm(w: u32, f: InstructionFormat) -> i32 {
    match f {
        InstructionFormat::R => 0,
        InstructionFormat::U => imm_of_pieces(w, format_pieces(f), false),
        _ => imm_of_pieces(w, format_pieces(f), true),
    }
}

/// Word `w` with the immediate `imm` written in format `f`.
pub open spec fn encode_imm(w: u32, f: InstructionFormat, imm: i32) -> u32 {
    scatter(w, imm as u32, format_pieces(f), format_pieces(f).len())
}

/// The character of bit `k` of `w`.
pub open spec fn bit_char(w: u32, k: u32) -> char {
    if (w >> k) & 1 == 1 {
        '1'
    } else {
        '0'
    }
}

/// The 32 bits of `w`, most significant first, in groups of four joined by `_`.
pub open spec fn binary_groups(w: u32) -> Seq<char> {
    Seq::new(39, |j: int| if j % 5 == 4 { '_' } else { bit_char(w, (31 - (j - j / 5)) as u32) })
}

/// How an instruction word is shown: `Instruction(0b` + its bit groups + `)`.
pub open spec fn debug_text_of(w: u32) -> Seq<char> {
    seq!['I', 'n', 's', 't', 'r', 'u', 'c', 't', 'i', 'o', 'n', '(', '0', 'b'] + binary_groups(w)
        + seq![')']
}

/// The little-endian 32-bit value of four bytes.
pub open spec fn le_u32(b: Seq<u8>) -> u32 {
    (b[0] as u32) | ((b[1] as u32) << 8u32) | ((b[2] as u32) << 16u32) | ((b[3] as u32) << 24u32)
}

/// The immediates that format `f` can hold exactly: 12 signed bits for I and S, 13
/// signed bits with bit 0 clear for B, 21 signed bits with bit 0 clear for J; U holds
/// the upper 20 bits of any value.
pub open spec fn imm_fits(f: InstructionFormat, imm: i32) -> bool {
    match f {
        InstructionFormat::R => false,
        InstructionFormat::I | InstructionFormat::S => -2048 <= imm < 2048,
        InstructionFormat::B => -4096 <= imm < 4096 && imm % 2 == 0,
        InstructionFormat::J => -0x100000 <= imm < 0x100000 && imm % 2 == 0,
        InstructionFormat::U => true,
    }
}

/// What reading back an immediate written in format `f` yields: the value itself,
/// except for U, which keeps only its upper 20 bits.
pub open spec fn imm_read_back(f: InstructionFormat, imm: i32) -> i32 {
    match f {
        InstructionFormat::U => ((imm as u32) & 0xfffff000u32) as i32,
        _ => imm,
    }
}

/// Round trip: an immediate that format `f` can hold, written into a clear word and
/// read back in the same format, is the immediate itself (for U, its upper 20 bits).
pub proof fn lemma_imm_round_trip(f: InstructionFormat, imm: i32)
    requires
        imm_fits(f, imm),
    ensures
        decode_imm(encode_imm(0, f, imm), f) == imm_read_back(f, imm),
{
    reveal_with_fuel(gather, 5);
    reveal_with_fuel(scatter, 5);
    reveal_with_fuel(highest_bit, 5);
    let v = #[verifier::truncate] (imm as u32);
    let w = encode_imm(0, f, imm);
    let ps = format_pieces(f);
    assert(v as i32 == imm) by (bit_vector)
        requires
            v == imm as u32,
    ;
    match f {
        InstructionFormat::R => {},
        InstructionFormat::I => {
            assert(w == 0u32 | (((v >> 0u32) & low_mask(12)) << 20u32));
            assert(highest_bit(ps, 1) == 11);
            assert(v < 0x800 || v >= 0xfffff800) by (bit_vector)
                requires
                    v == imm as u32,
                    -2048 <= imm < 2048,
            ;
            assert(sign_extend_at(0u32 | piece_value(w, 20, 0, 12), 11) == v) by (bit_vector)
                requires
                    w == 0u32 | (((v >> 0u32) & low_mask(12)) << 20u32),
                    v < 0x800 || v >= 0xfffff800,
            ;
        },
        InstructionFormat::S => {
            assert(w == (0u32 | (((v >> 0u32) & low_mask(5)) << 7u32)) | (((v >> 5u32) & low_mask(
                7,
            )) << 25u32));
            assert(highest_bit(ps, 2) == 11);
            assert(v < 0x800 || v >= 0xfffff800) by (bit_vector)
                requires
                    v == imm as u32,
                    -2048 <= imm < 2048,
            ;
            assert(sign_extend_at(
                (0u32 | piece_value(w, 7, 0, 5)) | piece_value(w, 25, 5, 7),
                11,
            ) == v) by (bit_vector)
                requires
                    w == (0u32 | (((v >> 0u32) & low_mask(5)) << 7u32)) | (((v >> 5u32)
                        & low_mask(7)) << 25u32),
                    v < 0x800 || v >= 0xfffff800,
            ;
        },
        InstructionFormat::B => {
            assert(w == (((0u32 | (((v >> 11u32) & low_mask(1)) << 7u32)) | (((v >> 1u32)
                & low_mask(4)) << 8u32)) | (((v >> 5u32) & low_mask(6)) << 25u32)) | (((v
                >> 12u32) & low_mask(1)) << 31u32));
            assert(highest_bit(ps, 4) == 12);
            assert((v < 0x1000 || v >= 0xfffff000) && v & 1 == 0) by (bit_vector)
                requires
                    v == imm as u32,
                    -4096 <= imm < 4096,
                    imm % 2 == 0,
            ;
            assert(sign_extend_at(
                (((0u32 | piece_value(w, 7, 11, 1)) | piece_value(w, 8, 1, 4)) | piece_value(
                    w,
                    25,
                    5,
                    6,
                )) | piece_value(w, 31, 12, 1),
                12,
            ) == v) by (bit_vector)
                requires
                    w == (((0u32 | (((v >> 11u32) & low_mask(1)) << 7u32)) | (((v >> 1u32)
                        & low_mask(4)) << 8u32)) | (((v >> 5u32) & low_mask(6)) << 25u32)) | (((
                    v >> 12u32) & low_mask(1)) << 31u32),
                    v < 0x1000 || v >= 0xfffff000,
                    v & 1 == 0,
            ;
        },
        InstructionFormat::U => {
            assert(w == 0u32 | (((v >> 12u32) & low_mask(20)) << 12u32));
            assert(0u32 | piece_value(w, 12, 12, 20) == v & 0xfffff000u32) by (bit_vector)
                requires
                    w == 0u32 | (((v >> 12u32) & low_mask(20)) << 12u32),
            ;
        },
        InstructionFormat::J => {
            assert(w == (((0u32 | (((v >> 12u32) & low_mask(8)) << 12u32)) | (((v >> 11u32)
                & low_mask(1)) << 20u32)) | (((v >> 1u32) & low_mask(10)) << 21u32)) | (((v
                >> 20u32) & low_mask(1)) << 31u32));
            assert(highest_bit(ps, 4) == 20);
            assert((v < 0x100000 || v >= 0xfff00000) && v & 1 == 0) by (bit_vector)
                requires
                    v == imm as u32,
                    -0x100000 <= imm < 0x100000,
                    imm % 2 == 0,
            ;
            assert(sign_extend_at(
                (((0u32 | piece_value(w, 12, 12, 8)) | piece_value(w, 20, 11, 1)) | piece_value(
                    w,
                    21,
                    1,
                    10,
                )) | piece_value(w, 31, 20, 1),
                20,
            ) == v) by (bit_vector)
                requires
                    w == (((0u32 | (((v >> 12u32) & low_mask(8)) << 12u32)) | (((v >> 11u32)
                        & low_mask(1)) << 20u32)) | (((v >> 1u32) & low_mask(10)) << 21u32)) | (((
                    v >> 20u32) & low_mask(1)) << 31u32),
                    v < 0x100000 || v >= 0xfff00000,
                    v & 1 == 0,
            ;
        },
    }
}

proof fn lemma_shift_positive(k: u32)
    requires
        k < 32,
    ensures
        (1u32 << k) >= 1,
        (1u32 << k) - 1 == low_mask(k),
{
    assert((1u32 << k) >= 1) by (bit_vector)
        requires
            k < 32,
    ;
}

/// Every field read from a word fits its width.
pub proof fn lemma_field_bounds(w: u32)
    ensures
        opcode_of(w) < 128,
        rd_of(w) < 32,
        funct3_of(w) < 8,
        rs1_of(w) < 32,
        rs2_of(w) < 32,
        funct7_of(w) < 128,
{
    assert(w & 0x7f < 128 && (w >> 7u32) & 0x1f < 32 && (w >> 12u32) & 0x7 < 8 && (w >> 15u32)
        & 0x1f < 32 && (w >> 20u32) & 0x1f < 32 && (w >> 25u32) & 0x7f < 128) by (bit_vector);
}

impl Instruction {
    pub fn opcode(self) -> (r: u32)
        ensures
            r == opcode_of(self.0),
            r < 128,
    {
        proof {
            lemma_field_bounds(self.0);
        }
        self.0 & 0b1111111
    }

    pub fn rd(self) -> (r: u32)
        ensures
            r == rd_of(self.0),
            r < 32,
    {
        proof {
            lemma_field_bounds(self.0);
        }
        (self.0 >> 7) & 0b11111
    }

    pub fn funct3(self) -> (r: u32)
        ensures
            r == funct3_of(self.0),
            r < 8,
    {
        proof {
            lemma_field_bounds(self.0);
        }
        (self.0 >> 12) & 0b111
    }

    pub fn rs1(self) -> (r: u32)
        ensures
            r == rs1_of(self.0),
            r < 32,
    {
        proof {
            lemma_field_bounds(self.0);
        }
        (self.0 >> 15) & 0b11111
    }

    pub fn rs2(self) -> (r: u32)
        ensures
            r == rs2_of(self.0),
            r < 32,
    {
        proof {
            lemma_field_bounds(self.0);
        }
        (self.0 >> 20) & 0b11111
    }

    pub fn funct7(self) -> (r: u32)
        ensures
            r == funct7_of(self.0),
            r < 128,
    {
        proof {
            lemma_field_bounds(self.0);
        }
        (self.0 >> 25) & 0b1111111
    }

    /// Replaces the opcode field, leaving every other bit as it was.
    pub fn set_opcode(&mut self, opcode: u32)
        requires
            opcode < 128,
        ensures
            final(self).0 == with_field(old(self).0, 0x7f, 0u32, opcode),
            opcode_of(final(self).0) == opcode,
            final(self).0 & !(0x7fu32 << 0u32) == old(self).0 & !(0x7fu32 << 0u32),
    {
        let w = self.0;
        proof {
            assert(opcode_of((w & !(0x7fu32 << 0u32)) | (opcode << 0u32)) == opcode
                && ((w & !(0x7fu32 << 0u32)) | (opcode << 0u32)) & !(0x7fu32 << 0u32) == w & !(
            0x7fu32 << 0u32)) by (bit_vector)
                requires
                    opcode < 128,
            ;
        }
        self.0 = (w & !(0b1111111u32 << 0u32)) | (opcode << 0u32);
    }

    /// Replaces the rd field, leaving every other bit as it was.
    pub fn set_rd(&mut self, rd: u32)
        requires
            rd < 32,
        ensures
            final(self).0 == with_field(old(self).0, 0x1f, 7u32, rd),
            rd_of(final(self).0) == rd,
            final(self).0 & !(0x1fu32 << 7u32) == old(self).0 & !(0x1fu32 << 7u32),
    {
        let w = self.0;
        proof {
            assert(rd_of((w & !(0x1fu32 << 7u32)) | (rd << 7u32)) == rd
                && ((w & !(0x1fu32 << 7u32)) | (rd << 7u32)) & !(0x1fu32 << 7u32) == w & !(
            0x1fu32 << 7u32)) by (bit_vector)
                requires
                    rd < 32,
            ;
        }
        self.0 = (w & !(0b11111u32 << 7u32)) | (rd << 7u32);
    }

    /// Replaces the funct3 field, leaving every other bit as it was.
    pub fn set_funct3(&mut self, funct3: u32)
        requires
            funct3 < 8,
        ensures
            final(self).0 == with_field(old(self).0, 0x7, 12u32, funct3),
            funct3_of(final(self).0) == funct3,
            final(self).0 & !(0x7u32 << 12u32) == old(self).0 & !(0x7u32 << 12u32),
    {
        let w = self.0;
        proof {
            assert(funct3_of((w & !(0x7u32 << 12u32)) | (funct3 << 12u32)) == funct3
                && ((w & !(0x7u32 << 12u32)) | (funct3 << 12u32)) & !(0x7u32 << 12u32) == w & !(
            0x7u32 << 12u32)) by (bit_vector)
                requires
                    funct3 < 8,
            ;
        }
        self.0 = (w & !(0b111u32 << 12u32)) | (funct3 << 12u32);
    }

    /// Replaces the rs1 field, leaving every other bit as it was.
    pub fn set_rs1(&mut self, rs1: u32)
        requires
            rs1 < 32,
        ensures
            final(self).0 == with_field(old(self).0, 0x1f, 15u32, rs1),
            rs1_of(final(self).0) == rs1,
            final(self).0 & !(0x1fu32 << 15u32) == old(self).0 & !(0x1fu32 << 15u32),
    {
        let w = self.0;
        proof {
            assert(rs1_of((w & !(0x1fu32 << 15u32)) | (rs1 << 15u32)) == rs1
                && ((w & !(0x1fu32 << 15u32)) | (rs1 << 15u32)) & !(0x1fu32 << 15u32) == w & !(
            0x1fu32 << 15u32)) by (bit_vector)
                requires
                    rs1 < 32,
            ;
        }
        self.0 = (w & !(0b11111u32 << 15u32)) | (rs1 << 15u32);
    }

    /// Replaces the rs2 field, leaving every other bit as it was.
    pub fn set_rs2(&mut self, rs2: u32)
        requires
            rs2 < 32,
        ensures
            final(self).0 == with_field(old(self).0, 0x1f, 20u32, rs2),
            rs2_of(final(self).0) == rs2,
            final(self).0 & !(0x1fu32 << 20u32) == old(self).0 & !(0x1fu32 << 20u32),
    {
        let w = self.0;
        proof {
            assert(rs2_of((w & !(0x1fu32 << 20u32)) | (rs2 << 20u32)) == rs2
                && ((w & !(0x1fu32 << 20u32)) | (rs2 << 20u32)) & !(0x1fu32 << 20u32) == w & !(
            0x1fu32 << 20u32)) by (bit_vector)
                requires
                    rs2 < 32,
            ;
        }
        self.0 = (w & !(0b11111u32 << 20u32)) | (rs2 << 20u32);
    }

    /// Replaces the funct7 field, leaving every other bit as it was.
    pub fn set_funct7(&mut self, funct7: u32)
        requires
            funct7 < 128,
        ensures
            final(self).0 == with_field(old(self).0, 0x7f, 25u32, funct7),
            funct7_of(final(self).0) == funct7,
            final(self).0 & !(0x7fu32 << 25u32) == old(self).0 & !(0x7fu32 << 25u32),
    {
        let w = self.0;
        proof {
            assert(funct7_of((w & !(0x7fu32 << 25u32)) | (funct7 << 25u32)) == funct7
                && ((w & !(0x7fu32 << 25u32)) | (funct7 << 25u32)) & !(0x7fu32 << 25u32) == w & !(
            0x7fu32 << 25u32)) by (bit_vector)
                requires
                    funct7 < 128,
            ;
        }
        self.0 = (w & !(0b1111111u32 << 25u32)) | (funct7 << 25u32);
    }

    /// The format that the word's opcode selects.
    pub fn format(self) -> (r: Result<InstructionFormat, Error>)
        ensures
            match format_of(opcode_of(self.0)) {
                Some(f) => r == Ok::<InstructionFormat, Error>(f),
                None => r == Err::<InstructionFormat, Error>(Error::UnsupportedOpcode(opcode_of(self.0))),
            },
    {
        let op = self.opcode();
        if op == 0b0110011 {
            Ok(InstructionFormat::R)
        } else if op == 0b0010011 || op == 0b0000011 || op == 0b1100111 || op == 0b1110011 {
            Ok(InstructionFormat::I)
        } else if op == 0b0100011 {
            Ok(InstructionFormat::S)
        } else if op == 0b1100011 {
            Ok(InstructionFormat::B)
        } else if op == 0b1101111 {
            Ok(InstructionFormat::J)
        } else if op == 0b0010111 || op == 0b0110111 {
            Ok(InstructionFormat::U)
        } else {
            Err(Error::UnsupportedOpcode(op))
        }
    }

    /// The immediate of this word, read in the format that its opcode selects.
    pub fn imm(self) -> (r: Result<i32, Error>)
        ensures
            match format_of(opcode_of(self.0)) {
                Some(f) => r == Ok::<i32, Error>(decode_imm(self.0, f)),
                None => r == Err::<i32, Error>(Error::UnsupportedOpcode(opcode_of(self.0))),
            },
    {
        match self.format() {
            Ok(f) => Ok(self.imm_by_format(f)),
            Err(e) => Err(e),
        }
    }

    /// The immediate of this word read in format `format`.
    pub fn imm_by_format(self, format: InstructionFormat) -> (r: i32)
        ensures
            r == decode_imm(self.0, format),
    {
        match format {
            InstructionFormat::R => 0,
            InstructionFormat::I => {
                let ps = [(20u32, 0u32, 12u32)];
                proof {
                    assert(ps@ =~= format_pieces(format));
                }
                self.imm_by_pieces(ps.as_slice(), true)
            },
            InstructionFormat::S => {
                let ps = [(7u32, 0u32, 5u32), (25u32, 5u32, 7u32)];
                proof {
                    assert(ps@ =~= format_pieces(format));
                }
                self.imm_by_pieces(ps.as_slice(), true)
            },
            InstructionFormat::B => {
                let ps = [(7u32, 11u32, 1u32), (8u32, 1u32, 4u32), (25u32, 5u32, 6u32), (31u32, 12u32, 1u32)];
                proof {
                    assert(ps@ =~= format_pieces(format));
                }
                self.imm_by_pieces(ps.as_slice(), true)
            },
            InstructionFormat::U => {
                let ps = [(12u32, 12u32, 20u32)];
                proof {
                    assert(ps@ =~= format_pieces(format));
                }
                self.imm_by_pieces(ps.as_slice(), false)
            },
            InstructionFormat::J => {
                let ps = [(12u32, 12u32, 8u32), (20u32, 11u32, 1u32), (21u32, 1u32, 10u32), (31u32, 20u32, 1u32)];
                proof {
                    assert(ps@ =~= format_pieces(format));
                }
                self.imm_by_pieces(ps.as_slice(), true)
            },
        }
    }

    /// Combines the pieces (word bit, immediate bit, width) of this word into an
    /// immediate, sign-extending from the highest immediate bit written when asked.
    pub fn imm_by_pieces(self, pieces: &[(u32, u32, u32)], sign_extend: bool) -> (r: i32)
        requires
            pieces_ok(pieces@),
        ensures
            r == imm_of_pieces(self.0, pieces@, sign_extend),
    {
        let mut output: u32 = 0;
        let mut highest: u32 = 0;
        let mut i: usize = 0;
        while i < pieces.len()
            invariant
                i <= pieces.len(),
                pieces_ok(pieces@),
                output == gather(self.0, pieces@, i as nat),
                highest == highest_bit(pieces@, i as nat),
                highest < 32,
            decreases pieces.len() - i,
        {
            let p = pieces[i];
            assert(piece_ok(pieces@[i as int]));
            proof {
                lemma_shift_positive(p.2);
            }
            let mask: u32 = (1u32 << p.2) - 1;
            output = output | (((self.0 >> p.0) & mask) << p.1);
            let top: u32 = p.1 + p.2 - 1;
            if top > highest {
                highest = top;
            }
            i = i + 1;
        }
        if sign_extend {
            proof {
                lemma_shift_positive(highest);
            }
            if output & (1u32 << highest) != 0 {
                output = output | !((1u32 << highest) - 1);
            }
        }
        output as i32
    }

    /// Writes `imm` into this word in format `format`, ORing its bits over the
    /// immediate positions (the caller starts from a word whose positions are clear).
    pub fn set_imm_by_format(&mut self, format: InstructionFormat, imm: i32)
        requires
            format != InstructionFormat::R,
        ensures
            final(self).0 == encode_imm(old(self).0, format, imm),
    {
        match format {
            InstructionFormat::R => {},
            InstructionFormat::I => {
                let ps = [(20u32, 0u32, 12u32)];
                proof {
                    assert(ps@ =~= format_pieces(format));
                }
                self.set_imm_by_pieces(ps.as_slice(), imm);
            },
            InstructionFormat::S => {
                let ps = [(7u32, 0u32, 5u32), (25u32, 5u32, 7u32)];
                proof {
                    assert(ps@ =~= format_pieces(format));
                }
                self.set_imm_by_pieces(ps.as_slice(), imm);
            },
            InstructionFormat::B => {
                let ps = [(7u32, 11u32, 1u32), (8u32, 1u32, 4u32), (25u32, 5u32, 6u32), (31u32, 12u32, 1u32)];
                proof {
                    assert(ps@ =~= format_pieces(format));
                }
                self.set_imm_by_pieces(ps.as_slice(), imm);
            },
            InstructionFormat::U => {
                let ps = [(12u32, 12u32, 20u32)];
                proof {
                    assert(ps@ =~= format_pieces(format));
                }
                self.set_imm_by_pieces(ps.as_slice(), imm);
            },
            InstructionFormat::J => {
                let ps = [(12u32, 12u32, 8u32), (20u32, 11u32, 1u32), (21u32, 1u32, 10u32), (31u32, 20u32, 1u32)];
                proof {
                    assert(ps@ =~= format_pieces(format));
                }
                self.set_imm_by_pieces(ps.as_slice(), imm);
            },
        }
    }

    /// ORs the bits of `imm` that each piece (word bit, immediate bit, width) selects
    /// into their word positions.
    pub fn set_imm_by_pieces(&mut self, pieces: &[(u32, u32, u32)], imm: i32)
        requires
            pieces_ok(pieces@),
        ensures
            final(self).0 == scatter(old(self).0, imm as u32, pieces@, pieces@.len()),
    {
        let v = imm as u32;
        let mut i: usize = 0;
        while i < pieces.len()
            invariant
                i <= pieces.len(),
                pieces_ok(pieces@),
                v == imm as u32,
                self.0 == scatter(old(self).0, v, pieces@, i as nat),
            decreases pieces.len() - i,
        {
            let p = pieces[i];
            assert(piece_ok(pieces@[i as int]));
            proof {
                lemma_shift_positive(p.2);
            }
            let value = (v >> p.1) & ((1u32 << p.2) - 1);
            self.0 = self.0 | (value << p.0);
            i = i + 1;
        }
    }

    /// The word in binary, four bits to a group: `Instruction(0b0000_..._0011)`.
    pub fn debug_text(self) -> (r: String)
        ensures
            r@ == debug_text_of(self.0),
    {
        let mut out: Vec<char> = vec![
            'I',
            'n',
            's',
            't',
            'r',
            'u',
            'c',
            't',
            'i',
            'o',
            'n',
            '(',
            '0',
            'b',
        ];
        let ghost prefix = out@;
        let mut j: u32 = 0;
        while j < 39
            invariant
                j <= 39,
                out@ == prefix + binary_groups(self.0).take(j as int),
            decreases 39 - j,
        {
            let c = if j % 5 == 4 {
                '_'
            } else {
                let k: u32 = 31 - (j - j / 5);
                if (self.0 >> k) & 1 == 1 {
                    '1'
                } else {
                    '0'
                }
            };
            out.push(c);
            proof {
                assert(binary_groups(self.0).take(j + 1) =~= binary_groups(self.0).take(j as int).push(c));
            }
            j = j + 1;
        }
        out.push(')');
        proof {
            assert(binary_groups(self.0).take(39) =~= binary_groups(self.0));
            assert(out@ =~= debug_text_of(self.0));
        }
        crate::text::string_from(out.as_slice())
    }

    /// The word held in four little-endian bytes.
    pub fn from_bytes(bytes: [u8; 4]) -> (r: Self)
        ensures
            r.0 == le_u32(bytes@),
    {
        Instruction(
            (bytes[0] as u32) | ((bytes[1] as u32) << 8u32) | ((bytes[2] as u32) << 16u32) | ((
            bytes[3] as u32) << 24u32),
        )
    }
}

} // verus!
