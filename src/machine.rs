use vstd::prelude::*;

use crate::compile::{compile_spec, label_views, words};
use crate::error::{Error, ErrorView};
use crate::parse::{inst_views, parse, parse_spec};
use crate::instruction::{
    decode_imm, format_of, funct3_of, funct7_of, le_u32, opcode_of, rd_of, rs1_of, rs2_of,
    Instruction, InstructionFormat,
};

verus! {

/// A machine: 32 registers, a flat byte memory and a program counter (a byte offset
/// into the code buffer).
pub struct Machine {
    pub regs: [i32; 32],
    pub mem: Vec<u8>,
    pub pc: i32,
}

/// The contents of a machine.
pub struct MachineState {
    pub regs: Seq<i32>,
    pub mem: Seq<u8>,
    pub pc: i32,
}

impl View for Machine {
    type V = MachineState;

    open spec fn view(&self) -> MachineState {
        MachineState { regs: self.regs@, mem: self.mem@, pc: self.pc }
    }
}

/// Register-register operations, by funct3 and funct7.
pub open spec fn alu_r(f3: u32, f7: u32, a: i32, b: i32) -> Option<i32> {
    if f3 == 0 && f7 == 0 {
        Some(a.wrapping_add(b))
    } else if f3 == 0 && f7 == 0x20 {
        Some(a.wrapping_sub(b))
    } else if f3 == 0 && f7 == 1 {
        Some(a.wrapping_mul(b))
    } else if f3 == 7 && f7 == 0 {
        Some(a & b)
    } else if f3 == 6 && f7 == 0 {
        Some(a | b)
    } else if f3 == 4 && f7 == 0 {
        Some(a ^ b)
    } else if f3 == 1 && f7 == 0 {
        Some(shift_left(a, b))
    } else if f3 == 5 && f7 == 0 {
        Some(shift_right_logical(a, b))
    } else if f3 == 5 && f7 == 0x20 {
        Some(shift_right_arith(a, b))
    } else if f3 == 2 && f7 == 0 {
        Some(if a < b { 1i32 } else { 0i32 })
    } else if f3 == 3 && f7 == 0 {
        Some(if (a as u32) < (b as u32) { 1i32 } else { 0i32 })
    } else {
        None
    }
}

/// Register-immediate operations, by funct3 (and funct7 for the shifts).
pub open spec fn alu_i(f3: u32, f7: u32, a: i32, imm: i32) -> Option<i32> {
    if f3 == 0 {
        Some(a.wrapping_add(imm))
    } else if f3 == 7 {
        Some(a & imm)
    } else if f3 == 6 {
        Some(a | imm)
    } else if f3 == 4 {
        Some(a ^ imm)
    } else if f3 == 1 && f7 == 0 {
        Some(shift_left(a, imm))
    } else if f3 == 5 && f7 == 0 {
        Some(shift_right_logical(a, imm))
    } else if f3 == 5 && f7 == 0x20 {
        Some(shift_right_arith(a, imm))
    } else if f3 == 2 {
        Some(if a < imm { 1i32 } else { 0i32 })
    } else if f3 == 3 {
        Some(if (a as u32) < (imm as u32) { 1i32 } else { 0i32 })
    } else {
        None
    }
}

/// Shifts take the low five bits of their amount (the wrapping shifts mask it so).
pub open spec fn shift_left(a: i32, s: i32) -> i32 {
    a.wrapping_shl(s as u32)
}

pub open spec fn shift_right_logical(a: i32, s: i32) -> i32 {
    (a as u32).wrapping_shr(s as u32) as i32
}

pub open spec fn shift_right_arith(a: i32, s: i32) -> i32 {
    a.wrapping_shr(s as u32)
}

/// The byte address of a load or store: base plus offset, modulo 2^32.
pub open spec fn eff_addr(a: i32, imm: i32) -> u32 {
    a.wrapping_add(imm) as u32
}

/// The number of bytes a load reads, by funct3.
pub open spec fn load_width(f3: u32) -> Option<u32> {
    if f3 == 0 || f3 == 4 {
        Some(1)
    } else if f3 == 1 || f3 == 5 {
        Some(2)
    } else if f3 == 2 {
        Some(4)
    } else {
        None
    }
}

pub open spec fn le_u16(lo: u8, hi: u8) -> u16 {
    (lo as int + hi as int * 256) as u16
}

/// The value a load reads at `a`: little-endian, signed or unsigned by funct3.
pub open spec fn load_value(mem: Seq<u8>, a: int, f3: u32) -> i32 {
    if f3 == 0 {
        mem[a] as i8 as i32
    } else if f3 == 4 {
        mem[a] as i32
    } else if f3 == 1 {
        le_u16(mem[a], mem[a + 1]) as i16 as i32
    } else if f3 == 5 {
        le_u16(mem[a], mem[a + 1]) as i32
    } else {
        le_u32(seq![mem[a], mem[a + 1], mem[a + 2], mem[a + 3]]) as i32
    }
}

/// The number of bytes a store writes, by funct3.
pub open spec fn store_width(f3: u32) -> Option<u32> {
    if f3 == 0 {
        Some(1)
    } else if f3 == 1 {
        Some(2)
    } else if f3 == 2 {
        Some(4)
    } else {
        None
    }
}

/// Memory after storing the low byte, half-word or word of `v` at `a`, little-endian.
pub open spec fn store_bytes(mem: Seq<u8>, a: int, f3: u32, v: i32) -> Seq<u8> {
    let u = v as u32;
    let one = mem.update(a, u as u8);
    if f3 == 0 {
        one
    } else {
        let two = one.update(a + 1, (u >> 8u32) as u8);
        if f3 == 1 {
            two
        } else {
            two.update(a + 2, (u >> 16u32) as u8).update(a + 3, (u >> 24u32) as u8)
        }
    }
}

/// Whether a branch is taken, by funct3.
pub open spec fn branch_taken(f3: u32, a: i32, b: i32) -> Option<bool> {
    if f3 == 0 {
        Some(a == b)
    } else if f3 == 1 {
        Some(a != b)
    } else if f3 == 4 {
        Some(a < b)
    } else if f3 == 5 {
        Some(a >= b)
    } else if f3 == 6 {
        Some((a as u32) < (b as u32))
    } else if f3 == 7 {
        Some((a as u32) >= (b as u32))
    } else {
        None
    }
}

/// The state after an instruction: register 0 forced back to zero.
pub open spec fn retire(regs: Seq<i32>, mem: Seq<u8>, pc: i32) -> MachineState {
    MachineState { regs: regs.update(0, 0), mem, pc }
}

/// One step of the machine on instruction word `w`: the next state and, for an
/// environment call, the pair (a0, a1) handed to the host.
pub open spec fn exec_spec(m: MachineState, w: u32) -> Result<
    (MachineState, Option<(i32, i32)>),
    ErrorView,
> {
    let op = opcode_of(w);
    let f3 = funct3_of(w);
    let f7 = funct7_of(w);
    let rd = rd_of(w) as int;
    let a = m.regs[rs1_of(w) as int];
    let b = m.regs[rs2_of(w) as int];
    let next = m.pc.wrapping_add(4);
    match format_of(op) {
        None => Err(ErrorView::UnsupportedOpcode(op)),
        Some(fmt) => {
            let imm = decode_imm(w, fmt);
            if op == 0b0110011 {
                match alu_r(f3, f7, a, b) {
                    Some(v) => Ok((retire(m.regs.update(rd, v), m.mem, next), None)),
                    None => Err(ErrorView::InvalidInstruction(w)),
                }
            } else if op == 0b0010011 {
                match alu_i(f3, f7, a, imm) {
                    Some(v) => Ok((retire(m.regs.update(rd, v), m.mem, next), None)),
                    None => Err(ErrorView::InvalidInstruction(w)),
                }
            } else if op == 0b0000011 {
                match load_width(f3) {
                    None => Err(ErrorView::InvalidInstruction(w)),
                    Some(n) => {
                        let addr = eff_addr(a, imm);
                        if addr + n <= m.mem.len() {
                            Ok(
                                (
                                    retire(
                                        m.regs.update(rd, load_value(m.mem, addr as int, f3)),
                                        m.mem,
                                        next,
                                    ),
                                    None,
                                ),
                            )
                        } else {
                            Err(ErrorView::OutOfBounds(addr))
                        }
                    },
                }
            } else if op == 0b0100011 {
                match store_width(f3) {
                    None => Err(ErrorView::InvalidInstruction(w)),
                    Some(n) => {
                        let addr = eff_addr(a, imm);
                        if addr + n <= m.mem.len() {
                            Ok((retire(m.regs, store_bytes(m.mem, addr as int, f3, b), next), None))
                        } else {
                            Err(ErrorView::OutOfBounds(addr))
                        }
                    },
                }
            } else if op == 0b1100011 {
                match branch_taken(f3, a, b) {
                    None => Err(ErrorView::InvalidInstruction(w)),
                    Some(taken) => Ok(
                        (
                            retire(
                                m.regs,
                                m.mem,
                                if taken {
                                    m.pc.wrapping_add(imm)
                                } else {
                                    next
                                },
                            ),
                            None,
                        ),
                    ),
                }
            } else if op == 0b1101111 {
                Ok((retire(m.regs.update(rd, next), m.mem, m.pc.wrapping_add(imm)), None))
            } else if op == 0b1100111 {
                if f3 == 0 {
                    Ok((retire(m.regs.update(rd, next), m.mem, a.wrapping_add(imm)), None))
                } else {
                    Err(ErrorView::InvalidInstruction(w))
                }
            } else if op == 0b0010111 {
                Ok((retire(m.regs.update(rd, m.pc.wrapping_add(imm)), m.mem, next), None))
            } else if op == 0b0110111 {
                Ok((retire(m.regs.update(rd, imm), m.mem, next), None))
            } else {
                if f3 == 0 && imm == 0 {
                    Ok((retire(m.regs, m.mem, next), None))
                } else if f3 == 0 && imm == 1 {
                    Ok((retire(m.regs, m.mem, next), Some((m.regs[10], m.regs[11]))))
                } else {
                    Err(ErrorView::InvalidInstruction(w))
                }
            }
        },
    }
}

/// Register 0 reads as zero after every step, whatever the step wrote.
pub proof fn lemma_exec_zero_register(m: MachineState, w: u32)
    requires
        m.regs.len() == 32,
    ensures
        exec_spec(m, w) is Ok ==> (exec_spec(m, w)->Ok_0).0.regs[0] == 0,
        exec_spec(m, w) is Ok ==> (exec_spec(m, w)->Ok_0).0.regs.len() == 32,
{
    crate::instruction::lemma_field_bounds(w);
}

/// Running from state `m` over `code` for at most `fuel` steps: it stops when the
/// program counter (read unsigned) reaches the end of the code, after an environment
/// call (handing its pair back), or at the first failure.
pub open spec fn run_spec(m: MachineState, code: Seq<u8>, fuel: nat) -> Result<
    (MachineState, Option<(i32, i32)>),
    ErrorView,
>
    decreases fuel,
{
    let at = m.pc as u32 as int;
    if fuel == 0 || at >= code.len() {
        Ok((m, None))
    } else if at + 4 > code.len() {
        Err(ErrorView::OutOfBounds(m.pc as u32))
    } else {
        match exec_spec(m, le_u32(code.subrange(at, at + 4))) {
            Err(e) => Err(e),
            Ok((next, Some(env))) => Ok((next, Some(env))),
            Ok((next, None)) => run_spec(next, code, (fuel - 1) as nat),
        }
    }
}

/// The little-endian bytes of a sequence of words, one word after the other.
pub open spec fn le_bytes(ws: Seq<u32>) -> Seq<u8>
    decreases ws.len(),
{
    if ws.len() == 0 {
        seq![]
    } else {
        let w = ws.last();
        le_bytes(ws.drop_last()) + seq![
            w as u8,
            (w >> 8u32) as u8,
            (w >> 16u32) as u8,
            (w >> 24u32) as u8,
        ]
    }
}

/// The serialized bytes of a word sequence are four per word.
proof fn lemma_le_bytes_len(ws: Seq<u32>)
    ensures
        le_bytes(ws).len() == 4 * ws.len(),
    decreases ws.len(),
{
    if ws.len() > 0 {
        lemma_le_bytes_len(ws.drop_last());
    }
}

/// Reading the four bytes at `4 * i` of a serialized word sequence gives word `i` back:
/// the code buffer that `compile` produces is what `run` fetches.
pub proof fn lemma_fetch_serialized_word(ws: Seq<u32>, i: int)
    requires
        0 <= i < ws.len(),
    ensures
        le_bytes(ws).len() == 4 * ws.len(),
        le_u32(le_bytes(ws).subrange(4 * i, 4 * i + 4)) == ws[i],
    decreases ws.len(),
{
    lemma_le_bytes_len(ws);
    let init = ws.drop_last();
    lemma_le_bytes_len(init);
    if i < ws.len() - 1 {
        lemma_fetch_serialized_word(init, i);
        assert(le_bytes(ws).subrange(4 * i, 4 * i + 4) =~= le_bytes(init).subrange(4 * i, 4 * i + 4));
    } else {
        let w = ws.last();
        let b = le_bytes(ws).subrange(4 * i, 4 * i + 4);
        assert(b =~= seq![w as u8, (w >> 8u32) as u8, (w >> 16u32) as u8, (w >> 24u32) as u8]);
        assert(((w as u8) as u32) | ((((w >> 8u32) as u8) as u32) << 8u32) | ((((w >> 16u32) as u8)
            as u32) << 16u32) | ((((w >> 24u32) as u8) as u32) << 24u32) == w) by (bit_vector);
    }
}

/// A program text assembled into the bytes of its encoded words.
pub open spec fn assemble_spec(text: Seq<char>) -> Result<Seq<u8>, ErrorView> {
    match parse_spec(text) {
        Err(e) => Err(e),
        Ok(p) => match compile_spec(p.0, p.2) {
            Err(e) => Err(e),
            Ok(ws) => Ok(le_bytes(ws)),
        },
    }
}

/// Assembles a program text into a code buffer: each instruction word as four
/// little-endian bytes, in order.
pub fn compile(text: &str) -> (r: Result<Vec<u8>, Error>)
    ensures
        match (r, assemble_spec(text@)) {
            (Ok(b), Ok(s)) => b@ == s,
            (Err(e), Err(s)) => e@ == s,
            _ => false,
        },
{
    let (insts, _texts, labels) = match parse(text) {
        Ok(p) => p,
        Err(e) => return Err(e),
    };
    let code = match crate::compile::compile(insts, &labels) {
        Ok(c) => c,
        Err(e) => return Err(e),
    };
    let ghost ws = words(code@);
    let mut out: Vec<u8> = Vec::new();
    let mut i: usize = 0;
    assert(out@ =~= le_bytes(ws.take(0)));
    while i < code.len()
        invariant
            i <= code@.len(),
            ws == words(code@),
            out@ == le_bytes(ws.take(i as int)),
        decreases code@.len() - i,
    {
        let w = code[i].0;
        out.push(w as u8);
        out.push((w >> 8u32) as u8);
        out.push((w >> 16u32) as u8);
        out.push((w >> 24u32) as u8);
        proof {
            assert(ws.take(i + 1).drop_last() =~= ws.take(i as int));
            assert(out@ =~= le_bytes(ws.take(i + 1)));
        }
        i = i + 1;
    }
    assert(ws.take(code@.len() as int) =~= ws);
    Ok(out)
}

/// A load whose bytes would reach past the end of memory fails with `OutOfBounds` at
/// its address: it never reads outside the buffer.
pub proof fn lemma_out_of_bounds_load_fails(m: MachineState, w: u32)
    requires
        opcode_of(w) == 0b0000011,
        load_width(funct3_of(w)) is Some,
        eff_addr(m.regs[rs1_of(w) as int], decode_imm(w, InstructionFormat::I)) + load_width(
            funct3_of(w),
        )->0 > m.mem.len(),
    ensures
        exec_spec(m, w) == Err::<(MachineState, Option<(i32, i32)>), ErrorView>(
            ErrorView::OutOfBounds(
                eff_addr(m.regs[rs1_of(w) as int], decode_imm(w, InstructionFormat::I)),
            ),
        ),
{
}

/// A store whose bytes would reach past the end of memory fails with `OutOfBounds` at
/// its address: it never writes outside the buffer.
pub proof fn lemma_out_of_bounds_store_fails(m: MachineState, w: u32)
    requires
        opcode_of(w) == 0b0100011,
        store_width(funct3_of(w)) is Some,
        eff_addr(m.regs[rs1_of(w) as int], decode_imm(w, InstructionFormat::S)) + store_width(
            funct3_of(w),
        )->0 > m.mem.len(),
    ensures
        exec_spec(m, w) == Err::<(MachineState, Option<(i32, i32)>), ErrorView>(
            ErrorView::OutOfBounds(
                eff_addr(m.regs[rs1_of(w) as int], decode_imm(w, InstructionFormat::S)),
            ),
        ),
{
}

fn alu_r_exec(f3: u32, f7: u32, a: i32, b: i32) -> (r: Option<i32>)
    ensures
        r == alu_r(f3, f7, a, b),
{
    if f3 == 0 && f7 == 0 {
        Some(a.wrapping_add(b))
    } else if f3 == 0 && f7 == 0x20 {
        Some(a.wrapping_sub(b))
    } else if f3 == 0 && f7 == 1 {
        Some(a.wrapping_mul(b))
    } else if f3 == 7 && f7 == 0 {
        Some(a & b)
    } else if f3 == 6 && f7 == 0 {
        Some(a | b)
    } else if f3 == 4 && f7 == 0 {
        Some(a ^ b)
    } else if f3 == 1 && f7 == 0 {
        Some(a.wrapping_shl(b as u32))
    } else if f3 == 5 && f7 == 0 {
        Some((a as u32).wrapping_shr(b as u32) as i32)
    } else if f3 == 5 && f7 == 0x20 {
        Some(a.wrapping_shr(b as u32))
    } else if f3 == 2 && f7 == 0 {
        Some(if a < b { 1i32 } else { 0i32 })
    } else if f3 == 3 && f7 == 0 {
        Some(if (a as u32) < (b as u32) { 1i32 } else { 0i32 })
    } else {
        None
    }
}

fn alu_i_exec(f3: u32, f7: u32, a: i32, imm: i32) -> (r: Option<i32>)
    ensures
        r == alu_i(f3, f7, a, imm),
{
    if f3 == 0 {
        Some(a.wrapping_add(imm))
    } else if f3 == 7 {
        Some(a & imm)
    } else if f3 == 6 {
        Some(a | imm)
    } else if f3 == 4 {
        Some(a ^ imm)
    } else if f3 == 1 && f7 == 0 {
        Some(a.wrapping_shl(imm as u32))
    } else if f3 == 5 && f7 == 0 {
        Some((a as u32).wrapping_shr(imm as u32) as i32)
    } else if f3 == 5 && f7 == 0x20 {
        Some(a.wrapping_shr(imm as u32))
    } else if f3 == 2 {
        Some(if a < imm { 1i32 } else { 0i32 })
    } else if f3 == 3 {
        Some(if (a as u32) < (imm as u32) { 1i32 } else { 0i32 })
    } else {
        None
    }
}

fn branch_exec(f3: u32, a: i32, b: i32) -> (r: Option<bool>)
    ensures
        r == branch_taken(f3, a, b),
{
    if f3 == 0 {
        Some(a == b)
    } else if f3 == 1 {
        Some(a != b)
    } else if f3 == 4 {
        Some(a < b)
    } else if f3 == 5 {
        Some(a >= b)
    } else if f3 == 6 {
        Some((a as u32) < (b as u32))
    } else if f3 == 7 {
        Some((a as u32) >= (b as u32))
    } else {
        None
    }
}

impl Machine {
    /// A machine with `mem_size` zeroed bytes of memory, every register zero but the
    /// stack pointer (x2), which holds `mem_size`, and the program counter at 0.
    pub fn new(mem_size: usize) -> (r: Machine)
        requires
            mem_size <= i32::MAX,
        ensures
            r.mem@ == Seq::new(mem_size as nat, |i: int| 0u8),
            r.regs@ == Seq::new(32, |i: int| 0i32).update(2, mem_size as i32),
            r.pc == 0,
    {
        let mut mem: Vec<u8> = Vec::new();
        let mut i: usize = 0;
        while i < mem_size
            invariant
                i <= mem_size,
                mem@ == Seq::new(i as nat, |k: int| 0u8),
            decreases mem_size - i,
        {
            mem.push(0);
            proof {
                assert(mem@ =~= Seq::new((i + 1) as nat, |k: int| 0u8));
            }
            i = i + 1;
        }
        let mut regs = [0i32; 32];
        regs[2] = mem_size as i32;
        proof {
            assert(regs@ =~= Seq::new(32, |i: int| 0i32).update(2, mem_size as i32));
        }
        Machine { regs, mem, pc: 0 }
    }

    fn write_back(&mut self, rd: u32, v: i32, pc: i32)
        requires
            rd < 32,
        ensures
            final(self)@ == retire(old(self)@.regs.update(rd as int, v), old(self)@.mem, pc),
    {
        self.regs[rd as usize] = v;
        self.regs[0] = 0;
        self.pc = pc;
    }

    fn load(&self, addr: usize, f3: u32) -> (r: i32)
        requires
            load_width(f3) is Some,
            addr + load_width(f3)->0 <= self.mem.len(),
        ensures
            r == load_value(self.mem@, addr as int, f3),
    {
        if f3 == 0 {
            self.mem[addr] as i8 as i32
        } else if f3 == 4 {
            self.mem[addr] as i32
        } else if f3 == 1 {
            let h: u16 = (self.mem[addr] as u16) + (self.mem[addr + 1] as u16) * 256;
            h as i16 as i32
        } else if f3 == 5 {
            let h: u16 = (self.mem[addr] as u16) + (self.mem[addr + 1] as u16) * 256;
            h as i32
        } else {
            assert(f3 == 2);
            let b = [self.mem[addr], self.mem[addr + 1], self.mem[addr + 2], self.mem[addr + 3]];
            let word = Instruction::from_bytes(b);
            proof {
                assert(b@ =~= seq![
                    self.mem@[addr as int],
                    self.mem@[addr + 1],
                    self.mem@[addr + 2],
                    self.mem@[addr + 3],
                ]);
            }
            word.0 as i32
        }
    }

    fn store(&mut self, addr: usize, f3: u32, v: i32)
        requires
            store_width(f3) is Some,
            addr + store_width(f3)->0 <= old(self).mem.len(),
        ensures
            final(self).mem@ == store_bytes(old(self).mem@, addr as int, f3, v),
            final(self).regs == old(self).regs,
            final(self).pc == old(self).pc,
    {
        let u = v as u32;
        self.mem[addr] = u as u8;
        assert(f3 == 0 || f3 == 1 || f3 == 2);
        if f3 != 0 {
            self.mem[addr + 1] = (u >> 8u32) as u8;
            if f3 != 1 {
                self.mem[addr + 2] = (u >> 16u32) as u8;
                self.mem[addr + 3] = (u >> 24u32) as u8;
            }
        }
    }

    /// Executes one instruction word. On success the machine takes the step that
    /// `exec_spec` describes and the result is the environment-call pair, if any; on
    /// failure the machine is left as it was.
    pub fn exec(&mut self, inst: Instruction) -> (r: Result<Option<(i32, i32)>, Error>)
        ensures
            match exec_spec(old(self)@, inst.0) {
                Ok((m, env)) => r == Ok::<Option<(i32, i32)>, Error>(env) && final(self)@ == m,
                Err(e) => r matches Err(x) && x@ == e && final(self)@ == old(self)@,
            },
    {
        let w = inst.0;
        let op = inst.opcode();
        let f3 = inst.funct3();
        let f7 = inst.funct7();
        let rd = inst.rd();
        let a = self.regs[inst.rs1() as usize];
        let b = self.regs[inst.rs2() as usize];
        let imm = match inst.imm() {
            Ok(imm) => imm,
            Err(e) => return Err(e),
        };
        let next = self.pc.wrapping_add(4);
        if op == 0b0110011 {
            match alu_r_exec(f3, f7, a, b) {
                Some(v) => self.write_back(rd, v, next),
                None => return Err(Error::InvalidInstruction(w)),
            }
        } else if op == 0b0010011 {
            match alu_i_exec(f3, f7, a, imm) {
                Some(v) => self.write_back(rd, v, next),
                None => return Err(Error::InvalidInstruction(w)),
            }
        } else if op == 0b0000011 {
            let width: u64 = if f3 == 0 || f3 == 4 {
                1
            } else if f3 == 1 || f3 == 5 {
                2
            } else if f3 == 2 {
                4
            } else {
                return Err(Error::InvalidInstruction(w));
            };
            let addr = a.wrapping_add(imm) as u32;
            if addr as u64 + width <= self.mem.len() as u64 {
                let v = self.load(addr as usize, f3);
                self.write_back(rd, v, next);
            } else {
                return Err(Error::OutOfBounds(addr));
            }
        } else if op == 0b0100011 {
            let width: u64 = if f3 == 0 {
                1
            } else if f3 == 1 {
                2
            } else if f3 == 2 {
                4
            } else {
                return Err(Error::InvalidInstruction(w));
            };
            let addr = a.wrapping_add(imm) as u32;
            if addr as u64 + width <= self.mem.len() as u64 {
                self.store(addr as usize, f3, b);
                self.regs[0] = 0;
                self.pc = next;
            } else {
                return Err(Error::OutOfBounds(addr));
            }
        } else if op == 0b1100011 {
            match branch_exec(f3, a, b) {
                Some(taken) => {
                    self.regs[0] = 0;
                    self.pc = if taken {
                        self.pc.wrapping_add(imm)
                    } else {
                        next
                    };
                },
                None => return Err(Error::InvalidInstruction(w)),
            }
        } else if op == 0b1101111 {
            let target = self.pc.wrapping_add(imm);
            self.write_back(rd, next, target);
        } else if op == 0b1100111 {
            if f3 == 0 {
                self.write_back(rd, next, a.wrapping_add(imm));
            } else {
                return Err(Error::InvalidInstruction(w));
            }
        } else if op == 0b0010111 {
            let v = self.pc.wrapping_add(imm);
            self.write_back(rd, v, next);
        } else if op == 0b0110111 {
            self.write_back(rd, imm, next);
        } else {
            if f3 == 0 && imm == 0 {
                self.regs[0] = 0;
                self.pc = next;
            } else if f3 == 0 && imm == 1 {
                let env = (self.regs[10], self.regs[11]);
                self.regs[0] = 0;
                self.pc = next;
                return Ok(Some(env));
            } else {
                return Err(Error::InvalidInstruction(w));
            }
        }
        Ok(None)
    }
    /// Runs the program in `code` (little-endian words) from the current program counter
    /// for at most `max_steps` instructions; see `run_spec`.
    pub fn run_for(&mut self, code: &[u8], max_steps: u64) -> (r: Result<
        Option<(i32, i32)>,
        Error,
    >)
        ensures
            match run_spec(old(self)@, code@, max_steps as nat) {
                Ok((m, env)) => r == Ok::<Option<(i32, i32)>, Error>(env) && final(self)@ == m,
                Err(e) => r matches Err(x) && x@ == e,
            },
    {
        let mut steps: u64 = 0;
        while steps < max_steps
            invariant
                steps <= max_steps,
                run_spec(old(self)@, code@, max_steps as nat) == run_spec(
                    self@,
                    code@,
                    (max_steps - steps) as nat,
                ),
            decreases max_steps - steps,
        {
            let at64 = self.pc as u32 as u64;
            if at64 >= code.len() as u64 {
                return Ok(None);
            }
            if at64 + 4 > code.len() as u64 {
                return Err(Error::OutOfBounds(self.pc as u32));
            }
            let at = at64 as usize;
            let bytes = [code[at], code[at + 1], code[at + 2], code[at + 3]];
            proof {
                assert(bytes@ =~= code@.subrange(at as int, at + 4));
            }
            let inst = Instruction::from_bytes(bytes);
            match self.exec(inst) {
                Err(e) => return Err(e),
                Ok(Some(env)) => return Ok(Some(env)),
                Ok(None) => {},
            }
            steps = steps + 1;
        }
        Ok(None)
    }

    /// Runs the program in `code` until the program counter leaves it, an environment
    /// call hands its pair back, or an instruction fails (at most `u64::MAX` steps).
    pub fn run(&mut self, code: &[u8]) -> (r: Result<Option<(i32, i32)>, Error>)
        ensures
            match run_spec(old(self)@, code@, u64::MAX as nat) {
                Ok((m, env)) => r == Ok::<Option<(i32, i32)>, Error>(env) && final(self)@ == m,
                Err(e) => r matches Err(x) && x@ == e,
            },
    {
        self.run_for(code, u64::MAX)
    }

    /// A copy of the 32 registers.
    pub fn get_registers(&self) -> (r: Vec<i32>)
        ensures
            r@ == self.regs@,
    {
        let mut out: Vec<i32> = Vec::new();
        let mut i: usize = 0;
        while i < 32
            invariant
                i <= 32,
                out@ == self.regs@.take(i as int),
            decreases 32 - i,
        {
            out.push(self.regs[i]);
            proof {
                assert(self.regs@.take(i as int).push(self.regs@[i as int]) =~= self.regs@.take(
                    i + 1,
                ));
            }
            i = i + 1;
        }
        assert(self.regs@.take(32) =~= self.regs@);
        out
    }

    /// A copy of `len` bytes of memory from `start`, if they all lie inside it.
    pub fn get_memory_view(&self, start: usize, len: usize) -> (r: Option<Vec<u8>>)
        ensures
            start + len <= self.mem@.len() ==> (r matches Some(v) && v@ == self.mem@.subrange(
                start as int,
                start + len,
            )),
            start + len > self.mem@.len() ==> r is None,
    {
        if len > self.mem.len() || start > self.mem.len() - len {
            return None;
        }
        let mut out: Vec<u8> = Vec::new();
        let mut i: usize = 0;
        while i < len
            invariant
                i <= len,
                start + len <= self.mem.len(),
                out@ == self.mem@.subrange(start as int, start + i),
            decreases len - i,
        {
            out.push(self.mem[start + i]);
            proof {
                assert(out@ =~= self.mem@.subrange(start as int, start + i + 1));
            }
            i = i + 1;
        }
        Some(out)
    }

    /// The index of the instruction the program counter points at, if it is not negative.
    pub fn get_instruction_index(&self) -> (r: Option<usize>)
        ensures
            self.pc >= 0 ==> r == Some((self.pc / 4) as usize),
            self.pc < 0 ==> r is None,
    {
        if self.pc >= 0 {
            Some((self.pc / 4) as usize)
        } else {
            None
        }
    }
}

} // verus!
