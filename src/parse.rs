use vstd::prelude::*;

use crate::def::{mnemonic_from_text, mnemonic_of, spelling, Mnemonic};
use crate::error::{Error, ErrorView};
use crate::compile::{expand_pseudo, expand_spec, label_views};
use crate::text::{
    all_digits, before, dec_value, decimal, find_any, index_of_any, lines, lower_all, lowercase,
    slice_chars, split_lines, string_from, to_chars, tokenize, tokens, trim, trim_chars,
    trim_start, trim_start_chars, views,
};

verus! {

/// One structured operation: a mnemonic with the operand slots that it uses.
#[derive(Debug, Clone, PartialEq, Eq)]
pub struct Inst {
    pub name: Mnemonic,
    pub rd: Option<u32>,
    pub rs1: Option<u32>,
    pub rs2: Option<u32>,
    pub imm: Option<Imm>,
}

/// An immediate operand: a number, or a reference to a label that is resolved later.
#[derive(Debug, Clone, PartialEq, Eq)]
pub enum Imm {
    Value(i32),
    /// The byte offset from this instruction to the label.
    Label(String),
    /// The upper part of the split offset from this instruction to the label.
    LabelHi(String),
    /// The lower part of the split offset to the label from the instruction before this one.
    LabelLo(String),
}

pub enum ImmView {
    Value(i32),
    Label(Seq<char>),
    LabelHi(Seq<char>),
    LabelLo(Seq<char>),
}

pub struct InstView {
    pub name: Mnemonic,
    pub rd: Option<u32>,
    pub rs1: Option<u32>,
    pub rs2: Option<u32>,
    pub imm: Option<ImmView>,
}

impl View for Imm {
    type V = ImmView;

    open spec fn view(&self) -> ImmView {
        match self {
            Imm::Value(v) => ImmView::Value(*v),
            Imm::Label(s) => ImmView::Label(s@),
            Imm::LabelHi(s) => ImmView::LabelHi(s@),
            Imm::LabelLo(s) => ImmView::LabelLo(s@),
        }
    }
}

impl View for Inst {
    type V = InstView;

    open spec fn view(&self) -> InstView {
        InstView {
            name: self.name,
            rd: self.rd,
            rs1: self.rs1,
            rs2: self.rs2,
            imm: match self.imm {
                Some(i) => Some(i@),
                None => None,
            },
        }
    }
}

/// The contents of each operation of a list.
pub open spec fn inst_views(v: Seq<Inst>) -> Seq<InstView> {
    v.map_values(|i: Inst| i@)
}

pub fn copy_imm(i: &Imm) -> (r: Imm)
    ensures
        r@ == i@,
{
    match i {
        Imm::Value(v) => Imm::Value(*v),
        Imm::Label(s) => Imm::Label(s.clone()),
        Imm::LabelHi(s) => Imm::LabelHi(s.clone()),
        Imm::LabelLo(s) => Imm::LabelLo(s.clone()),
    }
}

pub fn copy_inst(i: &Inst) -> (r: Inst)
    ensures
        r@ == i@,
{
    Inst {
        name: i.name,
        rd: i.rd,
        rs1: i.rs1,
        rs2: i.rs2,
        imm: match &i.imm {
            Some(m) => Some(copy_imm(m)),
            None => None,
        },
    }
}

pub open spec fn is_alpha(c: char) -> bool {
    ('a' <= c && c <= 'z') || ('A' <= c && c <= 'Z')
}

/// The register that an ABI name of class `class` (t, s or a) and number `n` denotes.
pub open spec fn abi_reg(class: char, n: int) -> Option<u32> {
    if class == 't' && 0 <= n <= 2 {
        Some((5 + n) as u32)
    } else if class == 't' && 3 <= n <= 6 {
        Some((25 + n) as u32)
    } else if class == 's' && 0 <= n <= 1 {
        Some((8 + n) as u32)
    } else if class == 's' && 2 <= n <= 11 {
        Some((16 + n) as u32)
    } else if class == 'a' && 0 <= n <= 7 {
        Some((10 + n) as u32)
    } else {
        None
    }
}

/// The register that a (lower-case) token names: `zero`, `ra`, `sp`, `gp`, `tp`,
/// `x<N>` for N below 32, or an ABI name `t0`-`t6`, `s0`-`s11`, `a0`-`a7`.
pub open spec fn reg_spec(t: Seq<char>) -> Option<u32> {
    let digits = t.drop_first();
    if t == seq!['z', 'e', 'r', 'o'] {
        Some(0)
    } else if t == seq!['r', 'a'] {
        Some(1)
    } else if t == seq!['s', 'p'] {
        Some(2)
    } else if t == seq!['g', 'p'] {
        Some(3)
    } else if t == seq!['t', 'p'] {
        Some(4)
    } else if t.len() < 2 || !all_digits(digits) {
        None
    } else if t[0] == 'x' {
        if dec_value(digits) < 32 {
            Some(dec_value(digits) as u32)
        } else {
            None
        }
    } else if digits.len() == 1 || digits[0] != '0' {
        abi_reg(t[0], dec_value(digits))
    } else {
        None
    }
}

/// The `i32` that a token spells in decimal, with an optional sign.
pub open spec fn int_spec(t: Seq<char>) -> Option<i32> {
    let signed = t.len() > 0 && (t[0] == '-' || t[0] == '+');
    let ds = if signed {
        t.drop_first()
    } else {
        t
    };
    if ds.len() > 0 && all_digits(ds) {
        let v = if t[0] == '-' {
            -dec_value(ds)
        } else {
            dec_value(ds)
        };
        if i32::MIN <= v <= i32::MAX {
            Some(v as i32)
        } else {
            None
        }
    } else {
        None
    }
}

/// An immediate token: a label when it starts with a letter, else a decimal number.
pub open spec fn imm_spec(t: Seq<char>) -> Option<ImmView> {
    if t.len() > 0 && is_alpha(t[0]) {
        Some(ImmView::Label(t))
    } else {
        match int_spec(t) {
            Some(v) => Some(ImmView::Value(v)),
            None => None,
        }
    }
}

/// The offset and register texts of a memory operand `offset(register)`.
pub open spec fn mem_operand(t: Seq<char>) -> Option<(Seq<char>, Seq<char>)> {
    let i = index_of_any(t, '(', ')');
    if i >= t.len() {
        None
    } else {
        let rest = t.subrange(i + 1, t.len() as int);
        Some((t.take(i), rest.take(index_of_any(rest, '(', ')'))))
    }
}

pub open spec fn missing(m: Mnemonic) -> ErrorView {
    ErrorView::MissingOperand(spelling(m))
}

/// The register operand in token `i` of an instruction with mnemonic `m`.
pub open spec fn reg_at(m: Mnemonic, t: Seq<Seq<char>>, i: int) -> Result<u32, ErrorView> {
    if i < t.len() {
        match reg_spec(t[i]) {
            Some(r) => Ok(r),
            None => Err(ErrorView::InvalidRegister(t[i])),
        }
    } else {
        Err(missing(m))
    }
}

/// The immediate operand in token `i` of an instruction with mnemonic `m`.
pub open spec fn imm_at(m: Mnemonic, t: Seq<Seq<char>>, i: int) -> Result<ImmView, ErrorView> {
    if i < t.len() {
        match imm_spec(t[i]) {
            Some(v) => Ok(v),
            None => Err(ErrorView::InvalidImmediate(t[i])),
        }
    } else {
        Err(missing(m))
    }
}

/// The memory operand (offset, base register) in token `i` of an instruction.
pub open spec fn mem_at(m: Mnemonic, t: Seq<Seq<char>>, i: int) -> Result<
    (ImmView, u32),
    ErrorView,
> {
    if i < t.len() {
        match mem_operand(t[i]) {
            None => Err(missing(m)),
            Some((o, r)) => match imm_spec(o) {
                None => Err(ErrorView::InvalidImmediate(o)),
                Some(imm) => match reg_spec(r) {
                    None => Err(ErrorView::InvalidRegister(r)),
                    Some(rs1) => Ok((imm, rs1)),
                },
            },
        }
    } else {
        Err(missing(m))
    }
}

pub open spec fn op(
    name: Mnemonic,
    rd: Option<u32>,
    rs1: Option<u32>,
    rs2: Option<u32>,
    imm: Option<ImmView>,
) -> InstView {
    InstView { name, rd, rs1, rs2, imm }
}

/// Operands that are a register then an immediate (the register in `rd`).
pub open spec fn rd_imm(m: Mnemonic, t: Seq<Seq<char>>, rd_at: int) -> Result<InstView, ErrorView> {
    match reg_at(m, t, rd_at) {
        Err(e) => Err(e),
        Ok(rd) => match imm_at(m, t, rd_at + 1) {
            Err(e) => Err(e),
            Ok(imm) => Ok(op(m, Some(rd), None, None, Some(imm))),
        },
    }
}

/// The operands of an instruction with mnemonic `m`, read from its tokens `t`
/// (token 0 is the mnemonic), operand by operand from the left.
pub open spec fn operands_spec(m: Mnemonic, t: Seq<Seq<char>>) -> Result<InstView, ErrorView> {
    match m {
        Mnemonic::Add | Mnemonic::Sub | Mnemonic::And | Mnemonic::Or | Mnemonic::Xor
        | Mnemonic::Sll | Mnemonic::Srl | Mnemonic::Sra | Mnemonic::Slt | Mnemonic::Sltu
        | Mnemonic::Mul => match reg_at(m, t, 1) {
            Err(e) => Err(e),
            Ok(rd) => match reg_at(m, t, 2) {
                Err(e) => Err(e),
                Ok(rs1) => match reg_at(m, t, 3) {
                    Err(e) => Err(e),
                    Ok(rs2) => Ok(op(m, Some(rd), Some(rs1), Some(rs2), None)),
                },
            },
        },
        Mnemonic::Addi | Mnemonic::Andi | Mnemonic::Ori | Mnemonic::Xori | Mnemonic::Slli
        | Mnemonic::Srli | Mnemonic::Srai | Mnemonic::Slti | Mnemonic::Sltiu
        | Mnemonic::Jalr => match reg_at(m, t, 1) {
            Err(e) => Err(e),
            Ok(rd) => match reg_at(m, t, 2) {
                Err(e) => Err(e),
                Ok(rs1) => match imm_at(m, t, 3) {
                    Err(e) => Err(e),
                    Ok(imm) => Ok(op(m, Some(rd), Some(rs1), None, Some(imm))),
                },
            },
        },
        Mnemonic::Lb | Mnemonic::Lbu | Mnemonic::Lh | Mnemonic::Lhu | Mnemonic::Lw => match reg_at(
            m,
            t,
            1,
        ) {
            Err(e) => Err(e),
            Ok(rd) => match mem_at(m, t, 2) {
                Err(e) => Err(e),
                Ok((imm, rs1)) => Ok(op(m, Some(rd), Some(rs1), None, Some(imm))),
            },
        },
        Mnemonic::Sb | Mnemonic::Sh | Mnemonic::Sw => match reg_at(m, t, 1) {
            Err(e) => Err(e),
            Ok(rs2) => match mem_at(m, t, 2) {
                Err(e) => Err(e),
                Ok((imm, rs1)) => Ok(op(m, None, Some(rs1), Some(rs2), Some(imm))),
            },
        },
        Mnemonic::Beq | Mnemonic::Bge | Mnemonic::Bgeu | Mnemonic::Blt | Mnemonic::Bltu
        | Mnemonic::Bne => match reg_at(m, t, 1) {
            Err(e) => Err(e),
            Ok(rs1) => match reg_at(m, t, 2) {
                Err(e) => Err(e),
                Ok(rs2) => match imm_at(m, t, 3) {
                    Err(e) => Err(e),
                    Ok(imm) => Ok(op(m, None, Some(rs1), Some(rs2), Some(imm))),
                },
            },
        },
        Mnemonic::Jal => if t.len() == 2 {
            match imm_at(m, t, 1) {
                Err(e) => Err(e),
                Ok(imm) => Ok(op(m, Some(1u32), None, None, Some(imm))),
            }
        } else {
            rd_imm(m, t, 1)
        },
        Mnemonic::Auipc | Mnemonic::Lui | Mnemonic::La | Mnemonic::Li => rd_imm(m, t, 1),
        Mnemonic::Ebreak => Ok(op(m, None, None, None, Some(ImmView::Value(0i32)))),
        Mnemonic::Ecall => Ok(op(m, None, None, None, Some(ImmView::Value(1i32)))),
        Mnemonic::Beqz | Mnemonic::Bnez => match reg_at(m, t, 1) {
            Err(e) => Err(e),
            Ok(rs1) => match imm_at(m, t, 2) {
                Err(e) => Err(e),
                Ok(imm) => Ok(op(m, None, Some(rs1), None, Some(imm))),
            },
        },
        Mnemonic::J => match imm_at(m, t, 1) {
            Err(e) => Err(e),
            Ok(imm) => Ok(op(m, None, None, None, Some(imm))),
        },
        Mnemonic::Jr => match reg_at(m, t, 1) {
            Err(e) => Err(e),
            Ok(rs1) => Ok(op(m, None, Some(rs1), None, None)),
        },
        Mnemonic::Mv | Mnemonic::Neg | Mnemonic::Not => match reg_at(m, t, 1) {
            Err(e) => Err(e),
            Ok(rd) => match reg_at(m, t, 2) {
                Err(e) => Err(e),
                Ok(rs1) => Ok(op(m, Some(rd), Some(rs1), None, None)),
            },
        },
        Mnemonic::Nop | Mnemonic::Ret => Ok(op(m, None, None, None, None)),
    }
}

/// The operation that the tokens of a line describe.
pub open spec fn parse_tokens_spec(t: Seq<Seq<char>>) -> Result<InstView, ErrorView> {
    if t.len() == 0 {
        Err(ErrorView::UnknownMnemonic(seq![]))
    } else {
        match mnemonic_of(t[0]) {
            None => Err(ErrorView::UnknownMnemonic(t[0])),
            Some(m) => operands_spec(m, t),
        }
    }
}

/// The operation that one line of assembly describes: the line is lower-cased, commas
/// count as whitespace, and its tokens are read by the mnemonic's operand form.
pub open spec fn parse_line_spec(line: Seq<char>) -> Result<InstView, ErrorView> {
    parse_tokens_spec(tokens(lower_all(line)))
}

/// A line whose first token names no mnemonic fails with `UnknownMnemonic` carrying
/// that token.
pub proof fn lemma_unknown_mnemonic_fails(line: Seq<char>)
    requires
        tokens(lower_all(line)).len() > 0,
        mnemonic_of(tokens(lower_all(line))[0]) is None,
    ensures
        parse_line_spec(line) == Err::<InstView, ErrorView>(
            ErrorView::UnknownMnemonic(tokens(lower_all(line))[0]),
        ),
{
}

fn abi_register(class: char, n: u64) -> (r: Option<u32>)
    ensures
        r == abi_reg(class, n as int),
{
    if class == 't' && n <= 2 {
        Some((5 + n) as u32)
    } else if class == 't' && 3 <= n && n <= 6 {
        Some((25 + n) as u32)
    } else if class == 's' && n <= 1 {
        Some((8 + n) as u32)
    } else if class == 's' && 2 <= n && n <= 11 {
        Some((16 + n) as u32)
    } else if class == 'a' && n <= 7 {
        Some((10 + n) as u32)
    } else {
        None
    }
}

fn invalid_register(s: &[char]) -> (e: Error)
    ensures
        e@ == ErrorView::InvalidRegister(s@),
{
    Error::InvalidRegister(string_from(s))
}

/// The register that the (lower-case) token `s` names.
pub fn parse_register(s: &[char]) -> (r: Result<u32, Error>)
    ensures
        match reg_spec(s@) {
            Some(x) => r == Ok::<u32, Error>(x),
            None => r matches Err(e) && e@ == ErrorView::InvalidRegister(s@),
        },
{
    let zero = vec!['z', 'e', 'r', 'o'];
    let ra = vec!['r', 'a'];
    let sp = vec!['s', 'p'];
    let gp = vec!['g', 'p'];
    let tp = vec!['t', 'p'];
    if crate::text::chars_eq(s, zero.as_slice()) {
        return Ok(0);
    } else if crate::text::chars_eq(s, ra.as_slice()) {
        return Ok(1);
    } else if crate::text::chars_eq(s, sp.as_slice()) {
        return Ok(2);
    } else if crate::text::chars_eq(s, gp.as_slice()) {
        return Ok(3);
    } else if crate::text::chars_eq(s, tp.as_slice()) {
        return Ok(4);
    }
    if s.len() < 2 {
        return Err(invalid_register(s));
    }
    let digits = slice_chars(s, 1, s.len());
    assert(digits@ =~= s@.drop_first());
    let v = match decimal(digits.as_slice(), 1000) {
        Some(v) => v,
        None => return Err(invalid_register(s)),
    };
    if s[0] == 'x' {
        if v < 32 {
            Ok(v as u32)
        } else {
            Err(invalid_register(s))
        }
    } else if digits.len() == 1 || digits[0] != '0' {
        match abi_register(s[0], v) {
            Some(r) => Ok(r),
            None => Err(invalid_register(s)),
        }
    } else {
        Err(invalid_register(s))
    }
}

fn invalid_immediate(s: &[char]) -> (e: Error)
    ensures
        e@ == ErrorView::InvalidImmediate(s@),
{
    Error::InvalidImmediate(string_from(s))
}

/// The immediate that the token `s` spells: a label reference when it starts with a
/// letter, otherwise a signed decimal `i32`.
pub fn parse_imm(s: &[char]) -> (r: Result<Imm, Error>)
    ensures
        match imm_spec(s@) {
            Some(v) => r matches Ok(x) && x@ == v,
            None => r matches Err(e) && e@ == ErrorView::InvalidImmediate(s@),
        },
{
    if s.len() > 0 && (('a' <= s[0] && s[0] <= 'z') || ('A' <= s[0] && s[0] <= 'Z')) {
        return Ok(Imm::Label(string_from(s)));
    }
    let signed = s.len() > 0 && (s[0] == '-' || s[0] == '+');
    let digits = if signed {
        slice_chars(s, 1, s.len())
    } else {
        slice_chars(s, 0, s.len())
    };
    proof {
        if signed {
            assert(digits@ =~= s@.drop_first());
        } else {
            assert(digits@ =~= s@);
        }
    }
    let v = match decimal(digits.as_slice(), 0x1_0000_0000) {
        Some(v) => v as i64,
        None => return Err(invalid_immediate(s)),
    };
    let value: i64 = if s[0] == '-' {
        -v
    } else {
        v
    };
    if -0x8000_0000 <= value && value <= 0x7fff_ffff {
        Ok(Imm::Value(value as i32))
    } else {
        Err(invalid_immediate(s))
    }
}

fn missing_operand(m: Mnemonic) -> (e: Error)
    ensures
        e@ == missing(m),
{
    let t = m.text();
    Error::MissingOperand(string_from(t.as_slice()))
}

fn reg_operand(m: Mnemonic, t: &Vec<Vec<char>>, i: usize) -> (r: Result<u32, Error>)
    ensures
        match reg_at(m, views(t@), i as int) {
            Ok(x) => r == Ok::<u32, Error>(x),
            Err(e) => r matches Err(x) && x@ == e,
        },
{
    if i < t.len() {
        parse_register(t[i].as_slice())
    } else {
        Err(missing_operand(m))
    }
}

fn imm_operand(m: Mnemonic, t: &Vec<Vec<char>>, i: usize) -> (r: Result<Imm, Error>)
    ensures
        match imm_at(m, views(t@), i as int) {
            Ok(v) => r matches Ok(x) && x@ == v,
            Err(e) => r matches Err(x) && x@ == e,
        },
{
    if i < t.len() {
        parse_imm(t[i].as_slice())
    } else {
        Err(missing_operand(m))
    }
}

fn mem_operand_at(m: Mnemonic, t: &Vec<Vec<char>>, i: usize) -> (r: Result<(Imm, u32), Error>)
    ensures
        match mem_at(m, views(t@), i as int) {
            Ok((v, rs1)) => r matches Ok((x, y)) && x@ == v && y == rs1,
            Err(e) => r matches Err(x) && x@ == e,
        },
{
    if i >= t.len() {
        return Err(missing_operand(m));
    }
    let tok = t[i].as_slice();
    let open = find_any(tok, '(', ')');
    if open >= tok.len() {
        return Err(missing_operand(m));
    }
    let offset = slice_chars(tok, 0, open);
    let rest = slice_chars(tok, open + 1, tok.len());
    let close = find_any(rest.as_slice(), '(', ')');
    let base = slice_chars(rest.as_slice(), 0, close);
    proof {
        assert(offset@ =~= tok@.take(open as int));
        assert(base@ =~= rest@.take(close as int));
    }
    let imm = match parse_imm(offset.as_slice()) {
        Ok(imm) => imm,
        Err(e) => return Err(e),
    };
    match parse_register(base.as_slice()) {
        Ok(rs1) => Ok((imm, rs1)),
        Err(e) => Err(e),
    }
}

fn make(name: Mnemonic, rd: Option<u32>, rs1: Option<u32>, rs2: Option<u32>, imm: Option<Imm>) -> (r:
    Inst)
    ensures
        r.name == name && r.rd == rd && r.rs1 == rs1 && r.rs2 == rs2 && r.imm == imm,
{
    Inst { name, rd, rs1, rs2, imm }
}

fn rd_imm_operands(m: Mnemonic, t: &Vec<Vec<char>>) -> (r: Result<Inst, Error>)
    ensures
        match rd_imm(m, views(t@), 1) {
            Ok(v) => r matches Ok(x) && x@ == v,
            Err(e) => r matches Err(x) && x@ == e,
        },
{
    let rd = match reg_operand(m, t, 1) {
        Ok(rd) => rd,
        Err(e) => return Err(e),
    };
    match imm_operand(m, t, 2) {
        Ok(imm) => Ok(make(m, Some(rd), None, None, Some(imm))),
        Err(e) => Err(e),
    }
}

/// Reads the operands of an instruction with mnemonic `m` from its tokens `t`.
fn parse_operands(m: Mnemonic, t: &Vec<Vec<char>>) -> (r: Result<Inst, Error>)
    ensures
        match operands_spec(m, views(t@)) {
            Ok(v) => r matches Ok(x) && x@ == v,
            Err(e) => r matches Err(x) && x@ == e,
        },
{
    match m {
        Mnemonic::Add | Mnemonic::Sub | Mnemonic::And | Mnemonic::Or | Mnemonic::Xor
        | Mnemonic::Sll | Mnemonic::Srl | Mnemonic::Sra | Mnemonic::Slt | Mnemonic::Sltu
        | Mnemonic::Mul => {
            let rd = match reg_operand(m, t, 1) {
                Ok(x) => x,
                Err(e) => return Err(e),
            };
            let rs1 = match reg_operand(m, t, 2) {
                Ok(x) => x,
                Err(e) => return Err(e),
            };
            let rs2 = match reg_operand(m, t, 3) {
                Ok(x) => x,
                Err(e) => return Err(e),
            };
            Ok(make(m, Some(rd), Some(rs1), Some(rs2), None))
        },
        Mnemonic::Addi | Mnemonic::Andi | Mnemonic::Ori | Mnemonic::Xori | Mnemonic::Slli
        | Mnemonic::Srli | Mnemonic::Srai | Mnemonic::Slti | Mnemonic::Sltiu
        | Mnemonic::Jalr => {
            let rd = match reg_operand(m, t, 1) {
                Ok(x) => x,
                Err(e) => return Err(e),
            };
            let rs1 = match reg_operand(m, t, 2) {
                Ok(x) => x,
                Err(e) => return Err(e),
            };
            let imm = match imm_operand(m, t, 3) {
                Ok(x) => x,
                Err(e) => return Err(e),
            };
            Ok(make(m, Some(rd), Some(rs1), None, Some(imm)))
        },
        Mnemonic::Lb | Mnemonic::Lbu | Mnemonic::Lh | Mnemonic::Lhu | Mnemonic::Lw => {
            let rd = match reg_operand(m, t, 1) {
                Ok(x) => x,
                Err(e) => return Err(e),
            };
            match mem_operand_at(m, t, 2) {
                Ok((imm, rs1)) => Ok(make(m, Some(rd), Some(rs1), None, Some(imm))),
                Err(e) => Err(e),
            }
        },
        Mnemonic::Sb | Mnemonic::Sh | Mnemonic::Sw => {
            let rs2 = match reg_operand(m, t, 1) {
                Ok(x) => x,
                Err(e) => return Err(e),
            };
            match mem_operand_at(m, t, 2) {
                Ok((imm, rs1)) => Ok(make(m, None, Some(rs1), Some(rs2), Some(imm))),
                Err(e) => Err(e),
            }
        },
        Mnemonic::Beq | Mnemonic::Bge | Mnemonic::Bgeu | Mnemonic::Blt | Mnemonic::Bltu
        | Mnemonic::Bne => {
            let rs1 = match reg_operand(m, t, 1) {
                Ok(x) => x,
                Err(e) => return Err(e),
            };
            let rs2 = match reg_operand(m, t, 2) {
                Ok(x) => x,
                Err(e) => return Err(e),
            };
            let imm = match imm_operand(m, t, 3) {
                Ok(x) => x,
                Err(e) => return Err(e),
            };
            Ok(make(m, None, Some(rs1), Some(rs2), Some(imm)))
        },
        Mnemonic::Jal => {
            if t.len() == 2 {
                match imm_operand(m, t, 1) {
                    Ok(imm) => Ok(make(m, Some(1u32), None, None, Some(imm))),
                    Err(e) => Err(e),
                }
            } else {
                rd_imm_operands(m, t)
            }
        },
        Mnemonic::Auipc | Mnemonic::Lui | Mnemonic::La | Mnemonic::Li => rd_imm_operands(m, t),
        Mnemonic::Ebreak => Ok(make(m, None, None, None, Some(Imm::Value(0)))),
        Mnemonic::Ecall => Ok(make(m, None, None, None, Some(Imm::Value(1)))),
        Mnemonic::Beqz | Mnemonic::Bnez => {
            let rs1 = match reg_operand(m, t, 1) {
                Ok(x) => x,
                Err(e) => return Err(e),
            };
            match imm_operand(m, t, 2) {
                Ok(imm) => Ok(make(m, None, Some(rs1), None, Some(imm))),
                Err(e) => Err(e),
            }
        },
        Mnemonic::J => match imm_operand(m, t, 1) {
            Ok(imm) => Ok(make(m, None, None, None, Some(imm))),
            Err(e) => Err(e),
        },
        Mnemonic::Jr => match reg_operand(m, t, 1) {
            Ok(rs1) => Ok(make(m, None, Some(rs1), None, None)),
            Err(e) => Err(e),
        },
        Mnemonic::Mv | Mnemonic::Neg | Mnemonic::Not => {
            let rd = match reg_operand(m, t, 1) {
                Ok(x) => x,
                Err(e) => return Err(e),
            };
            match reg_operand(m, t, 2) {
                Ok(rs1) => Ok(make(m, Some(rd), Some(rs1), None, None)),
                Err(e) => Err(e),
            }
        },
        Mnemonic::Nop | Mnemonic::Ret => Ok(make(m, None, None, None, None)),
    }
}

/// Parses one line of assembly (no label, no comment) into a structured operation;
/// pseudo-instructions stay unexpanded.
pub fn parse_line_chars(line: &[char]) -> (r: Result<Inst, Error>)
    ensures
        match parse_line_spec(line@) {
            Ok(v) => r matches Ok(x) && x@ == v,
            Err(e) => r matches Err(x) && x@ == e,
        },
{
    let lower = lowercase(line);
    let toks = tokenize(lower.as_slice());
    if toks.len() == 0 {
        let empty: Vec<char> = Vec::new();
        proof {
            assert(empty@ =~= seq![]);
        }
        return Err(Error::UnknownMnemonic(string_from(empty.as_slice())));
    }
    match mnemonic_from_text(toks[0].as_slice()) {
        None => Err(Error::UnknownMnemonic(string_from(toks[0].as_slice()))),
        Some(m) => parse_operands(m, &toks),
    }
}

/// Parses one line of assembly (no label, no comment) into a structured operation;
/// pseudo-instructions stay unexpanded.
pub fn parse_line(line: &str) -> (r: Result<Inst, Error>)
    ensures
        match parse_line_spec(line@) {
            Ok(v) => r matches Ok(x) && x@ == v,
            Err(e) => r matches Err(x) && x@ == e,
        },
{
    let chars = to_chars(line);
    parse_line_chars(chars.as_slice())
}

/// What parsing has produced so far: operations, the source text of each, labels.
pub type Parsed = (Seq<InstView>, Seq<Seq<char>>, Seq<(Seq<char>, u32)>);

pub open spec fn string_views(v: Seq<String>) -> Seq<Seq<char>> {
    v.map_values(|s: String| s@)
}

/// The code part of a line: what stands before any `#`, trimmed.
pub open spec fn code_of(l: Seq<char>) -> Seq<char> {
    trim(before(l, '#'))
}

/// Reading one source line: a blank or comment line adds nothing; a line with `:`
/// defines the (lower-cased, trimmed) label before it at the number of operations so
/// far; any other line is parsed, expanded, and each resulting operation recorded with
/// the line's text (without leading whitespace).
pub open spec fn line_step(acc: Parsed, l: Seq<char>) -> Result<Parsed, ErrorView> {
    let code = code_of(l);
    if code.len() == 0 {
        Ok(acc)
    } else if index_of_any(code, ':', ':') < code.len() {
        let name = lower_all(trim(before(code, ':')));
        if acc.0.len() <= u32::MAX {
            Ok((acc.0, acc.1, acc.2.push((name, acc.0.len() as u32))))
        } else {
            Err(ErrorView::OffsetOutOfRange(name))
        }
    } else {
        match parse_line_spec(code) {
            Err(e) => Err(e),
            Ok(i) => match expand_spec(i) {
                Err(e) => Err(e),
                Ok(ex) => Ok(
                    (acc.0 + ex, acc.1 + Seq::new(ex.len(), |k: int| trim_start(l)), acc.2),
                ),
            },
        }
    }
}

/// The result of reading the first `n` lines of `ls`, or the first failure.
pub open spec fn parse_lines(ls: Seq<Seq<char>>, n: nat) -> Result<Parsed, ErrorView>
    decreases n,
{
    if n == 0 {
        Ok((seq![], seq![], seq![]))
    } else {
        match parse_lines(ls, (n - 1) as nat) {
            Err(e) => Err(e),
            Ok(acc) => line_step(acc, ls[n - 1]),
        }
    }
}

/// The result of parsing a whole program text.
pub open spec fn parse_spec(input: Seq<char>) -> Result<Parsed, ErrorView> {
    parse_lines(lines(input), lines(input).len())
}

proof fn lemma_parse_lines_err(ls: Seq<Seq<char>>, n: nat, m: nat)
    requires
        n <= m,
        parse_lines(ls, n) is Err,
    ensures
        parse_lines(ls, m) == parse_lines(ls, n),
    decreases m - n,
{
    if n < m {
        lemma_parse_lines_err(ls, n, (m - 1) as nat);
    }
}

/// Reads one source line into the operations, texts and labels gathered so far.
fn read_line(
    l: &[char],
    insts: &mut Vec<Inst>,
    texts: &mut Vec<String>,
    labels: &mut Vec<(String, u32)>,
) -> (r: Result<(), Error>)
    ensures
        match line_step(
            (inst_views(old(insts)@), string_views(old(texts)@), label_views(old(labels)@)),
            l@,
        ) {
            Ok(acc) => r is Ok && acc == (
                inst_views(final(insts)@),
                string_views(final(texts)@),
                label_views(final(labels)@),
            ),
            Err(e) => r matches Err(x) && x@ == e,
        },
{
    let hash = find_any(l, '#', '#');
    let before_hash = slice_chars(l, 0, hash);
    assert(before_hash@ =~= before(l@, '#'));
    let code = trim_chars(before_hash.as_slice());
    if code.len() == 0 {
        return Ok(());
    }
    let colon = find_any(code.as_slice(), ':', ':');
    if colon < code.len() {
        let name_part = slice_chars(code.as_slice(), 0, colon);
        assert(name_part@ =~= before(code@, ':'));
        let trimmed = trim_chars(name_part.as_slice());
        let name = lowercase(trimmed.as_slice());
        if insts.len() > 0xffff_ffff {
            return Err(Error::OffsetOutOfRange(string_from(name.as_slice())));
        }
        let ghost old_labels = label_views(labels@);
        labels.push((string_from(name.as_slice()), insts.len() as u32));
        proof {
            assert(label_views(labels@) =~= old_labels.push((name@, insts@.len() as u32)));
        }
        return Ok(());
    }
    let inst = match parse_line_chars(code.as_slice()) {
        Ok(inst) => inst,
        Err(e) => return Err(e),
    };
    let expanded = match expand_pseudo(&inst) {
        Ok(v) => v,
        Err(e) => return Err(e),
    };
    let text_chars = trim_start_chars(l);
    let ghost insts0 = inst_views(insts@);
    let ghost texts0 = string_views(texts@);
    let ghost ex = inst_views(expanded@);
    let mut i: usize = 0;
    while i < expanded.len()
        invariant
            i <= expanded@.len(),
            ex == inst_views(expanded@),
            text_chars@ == trim_start(l@),
            inst_views(insts@) == insts0 + ex.take(i as int),
            string_views(texts@) == texts0 + Seq::new(i as nat, |k: int| trim_start(l@)),
            labels@ == old(labels)@,
        decreases expanded@.len() - i,
    {
        let ghost before_i = inst_views(insts@);
        let ghost before_t = string_views(texts@);
        insts.push(copy_inst(&expanded[i]));
        texts.push(string_from(text_chars.as_slice()));
        proof {
            assert(inst_views(insts@) =~= before_i.push(ex[i as int]));
            assert(ex.take(i + 1) =~= ex.take(i as int).push(ex[i as int]));
            assert(inst_views(insts@) =~= insts0 + ex.take(i + 1));
            assert(string_views(texts@) =~= before_t.push(trim_start(l@)));
            assert(string_views(texts@) =~= texts0 + Seq::new((i + 1) as nat, |k: int| trim_start(l@)));
        }
        i = i + 1;
    }
    assert(ex.take(ex.len() as int) =~= ex);
    Ok(())
}

/// Parses a program: every operation (pseudo-instructions expanded), the source text
/// of each, and the label table, whose entries map a label to the index of the
/// operation that follows it.
pub fn parse(input: &str) -> (r: Result<(Vec<Inst>, Vec<String>, Vec<(String, u32)>), Error>)
    ensures
        match (r, parse_spec(input@)) {
            (Ok((i, t, l)), Ok(s)) => s == (inst_views(i@), string_views(t@), label_views(l@)),
            (Err(e), Err(s)) => e@ == s,
            _ => false,
        },
{
    let chars = to_chars(input);
    let ls = split_lines(chars.as_slice());
    let ghost lv = views(ls@);
    let mut insts: Vec<Inst> = Vec::new();
    let mut texts: Vec<String> = Vec::new();
    let mut labels: Vec<(String, u32)> = Vec::new();
    let mut i: usize = 0;
    assert(inst_views(insts@) =~= seq![]);
    assert(string_views(texts@) =~= seq![]);
    assert(label_views(labels@) =~= seq![]);
    while i < ls.len()
        invariant
            i <= ls@.len(),
            lv == views(ls@),
            lv == lines(input@),
            parse_lines(lv, i as nat) == Ok::<Parsed, ErrorView>(
                (inst_views(insts@), string_views(texts@), label_views(labels@)),
            ),
        decreases ls@.len() - i,
    {
        match read_line(ls[i].as_slice(), &mut insts, &mut texts, &mut labels) {
            Ok(()) => {},
            Err(e) => {
                proof {
                    lemma_parse_lines_err(lv, (i + 1) as nat, lv.len());
                }
                return Err(e);
            },
        }
        i = i + 1;
    }
    Ok((insts, texts, labels))
}

} // verus!
