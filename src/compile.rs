use vstd::prelude::*;

use crate::def::{iset_row, spelling, Mnemonic};
use crate::error::{Error, ErrorView};
use crate::instruction::{
    decode_imm, encode_imm, funct3_of, funct7_of, low_mask, opcode_of, piece_value, rd_of,
    rs1_of, rs2_of, sign_extend_at, with_field, Instruction, InstructionFormat,
};
use crate::parse::{copy_imm, copy_inst, inst_views, op, Imm, ImmView, Inst, InstView};
use crate::text::string_from;

verus! {

/// A 32-bit value split into an upper part for `lui` / `auipc` and a lower 12-bit part
/// for `addi`: the lower part is the value's low 12 bits read unsigned, the upper part
/// the value shifted right by 12, less `2^20 - 1` when bit 11 of the lower part is set
/// (that bit makes `addi` subtract 4096, which the upper part makes up for modulo 2^20).
pub open spec fn split_spec(val: int) -> (int, int) {
    let lower = val % 4096;
    let upper = val / 4096;
    if lower < 2048 {
        (upper, lower)
    } else {
        (upper - 0xfffff, lower)
    }
}

/// The value of the low 12 bits of `x` read as a signed 12-bit number.
pub open spec fn sign_extend_12(x: int) -> int {
    if x % 4096 >= 2048 {
        x % 4096 - 4096
    } else {
        x % 4096
    }
}

/// The large-immediate split loses nothing: shifting the upper part left by 12 and
/// adding the sign-extended lower part gives the value back, in 32-bit arithmetic
/// (exactly, when bit 11 of the lower part is clear).
pub proof fn lemma_split_reconstructs(val: i32)
    ensures
        (split_spec(val as int).0 * 4096 + sign_extend_12(split_spec(val as int).1))
            % 0x1_0000_0000 == (val as int) % 0x1_0000_0000,
        split_spec(val as int).1 < 2048 ==> split_spec(val as int).0 * 4096 + sign_extend_12(
            split_spec(val as int).1,
        ) == val,
{
    let v = val as int;
    let (upper, lower) = split_spec(v);
    vstd::arithmetic::div_mod::lemma_fundamental_div_mod(v, 4096);
    assert(0 <= v % 4096 < 4096);
    assert(lower % 4096 == lower);
    if lower >= 2048 {
        assert(upper * 4096 + sign_extend_12(lower) == v - 0x1_0000_0000);
        vstd::arithmetic::div_mod::lemma_mod_sub_multiples_vanish(v, 0x1_0000_0000);
    }
}

/// Splits `val` into the upper and lower immediates of a `lui` / `addi` pair.
pub fn split_large_imm(val: i32) -> (r: (i32, i32))
    ensures
        r.0 == split_spec(val as int).0,
        r.1 == split_spec(val as int).1,
{
    let l: i32 = val & 0xfff;
    let h: i32 = val >> 12u32;
    assert(h * 4096 + l == val && 0 <= l < 4096 && -0x80000 <= h < 0x80000) by (bit_vector)
        requires
            l == val & 0xfff,
            h == val >> 12u32,
    ;
    proof {
        vstd::arithmetic::div_mod::lemma_fundamental_div_mod_converse(
            val as int,
            4096,
            h as int,
            l as int,
        );
    }
    if l < 2048 {
        (h, l)
    } else {
        (h - 0xfffff, l)
    }
}

/// The canonical operations that an operation stands for: a pseudo-instruction gives one
/// or two, a canonical one gives itself.
pub open spec fn expand_spec(i: InstView) -> Result<Seq<InstView>, ErrorView> {
    let zero = Some(0u32);
    let imm0 = Some(ImmView::Value(0i32));
    match i.name {
        Mnemonic::Beqz => Ok(seq![op(Mnemonic::Beq, None, i.rs1, zero, i.imm)]),
        Mnemonic::Bnez => Ok(seq![op(Mnemonic::Bne, None, i.rs1, zero, i.imm)]),
        Mnemonic::J => Ok(seq![op(Mnemonic::Jal, zero, None, None, i.imm)]),
        Mnemonic::Jr => Ok(seq![op(Mnemonic::Jalr, zero, i.rs1, None, imm0)]),
        Mnemonic::Mv => Ok(seq![op(Mnemonic::Addi, i.rd, i.rs1, None, imm0)]),
        Mnemonic::Neg => Ok(seq![op(Mnemonic::Sub, i.rd, zero, i.rs1, None)]),
        Mnemonic::Nop => Ok(seq![op(Mnemonic::Addi, zero, zero, None, imm0)]),
        Mnemonic::Not => Ok(seq![op(Mnemonic::Xori, i.rd, i.rs1, None, Some(ImmView::Value(-1i32)))]),
        Mnemonic::Ret => Ok(seq![op(Mnemonic::Jalr, zero, Some(1u32), None, imm0)]),
        Mnemonic::Li => match i.imm {
            Some(ImmView::Value(v)) => if -2048 <= v < 2048 {
                Ok(seq![op(Mnemonic::Addi, i.rd, zero, None, Some(ImmView::Value(v)))])
            } else {
                let s = split_spec(v as int);
                Ok(
                    seq![
                        op(Mnemonic::Lui, i.rd, None, None, Some(ImmView::Value(s.0 as i32))),
                        op(Mnemonic::Addi, i.rd, i.rd, None, Some(ImmView::Value(s.1 as i32))),
                    ],
                )
            },
            Some(ImmView::Label(l)) => Err(ErrorView::InvalidImmediate(l)),
            Some(ImmView::LabelHi(l)) => Err(ErrorView::InvalidImmediate(l)),
            Some(ImmView::LabelLo(l)) => Err(ErrorView::InvalidImmediate(l)),
            None => Err(ErrorView::MissingOperand(spelling(i.name))),
        },
        Mnemonic::La => match i.imm {
            Some(ImmView::Value(v)) => {
                let s = split_spec(v as int);
                Ok(
                    seq![
                        op(Mnemonic::Auipc, i.rd, None, None, Some(ImmView::Value(s.0 as i32))),
                        op(Mnemonic::Addi, i.rd, i.rd, None, Some(ImmView::Value(s.1 as i32))),
                    ],
                )
            },
            Some(ImmView::Label(l)) => Ok(
                seq![
                    op(Mnemonic::Auipc, i.rd, None, None, Some(ImmView::LabelHi(l))),
                    op(Mnemonic::Addi, i.rd, i.rd, None, Some(ImmView::LabelLo(l))),
                ],
            ),
            Some(ImmView::LabelHi(l)) => Err(ErrorView::InvalidImmediate(l)),
            Some(ImmView::LabelLo(l)) => Err(ErrorView::InvalidImmediate(l)),
            None => Err(ErrorView::MissingOperand(spelling(i.name))),
        },
        _ => Ok(seq![i]),
    }
}

fn make(name: Mnemonic, rd: Option<u32>, rs1: Option<u32>, rs2: Option<u32>, imm: Option<Imm>) -> (r:
    Inst)
    ensures
        r.name == name && r.rd == rd && r.rs1 == rs1 && r.rs2 == rs2 && r.imm == imm,
{
    Inst { name, rd, rs1, rs2, imm }
}

/// Rewrites a pseudo-instruction into the one or two canonical operations it stands
/// for; any other operation comes back unchanged.
pub fn expand_pseudo(inst: &Inst) -> (r: Result<Vec<Inst>, Error>)
    ensures
        match (r, expand_spec(inst@)) {
            (Ok(v), Ok(s)) => inst_views(v@) == s,
            (Err(e), Err(s)) => e@ == s,
            _ => false,
        },
{
    let zero = Some(0u32);
    let imm_copy = match &inst.imm {
        Some(m) => Some(copy_imm(m)),
        None => None,
    };
    let out = match inst.name {
        Mnemonic::Beqz => vec![make(Mnemonic::Beq, None, inst.rs1, zero, imm_copy)],
        Mnemonic::Bnez => vec![make(Mnemonic::Bne, None, inst.rs1, zero, imm_copy)],
        Mnemonic::J => vec![make(Mnemonic::Jal, zero, None, None, imm_copy)],
        Mnemonic::Jr => vec![make(Mnemonic::Jalr, zero, inst.rs1, None, Some(Imm::Value(0)))],
        Mnemonic::Mv => vec![make(Mnemonic::Addi, inst.rd, inst.rs1, None, Some(Imm::Value(0)))],
        Mnemonic::Neg => vec![make(Mnemonic::Sub, inst.rd, zero, inst.rs1, None)],
        Mnemonic::Nop => vec![make(Mnemonic::Addi, zero, zero, None, Some(Imm::Value(0)))],
        Mnemonic::Not => vec![make(Mnemonic::Xori, inst.rd, inst.rs1, None, Some(Imm::Value(-1)))],
        Mnemonic::Ret => vec![make(Mnemonic::Jalr, zero, Some(1u32), None, Some(Imm::Value(0)))],
        Mnemonic::Li => match &inst.imm {
            Some(Imm::Value(v)) => {
                let v = *v;
                if -2048 <= v && v < 2048 {
                    vec![make(Mnemonic::Addi, inst.rd, zero, None, Some(Imm::Value(v)))]
                } else {
                    let (h, l) = split_large_imm(v);
                    vec![
                        make(Mnemonic::Lui, inst.rd, None, None, Some(Imm::Value(h))),
                        make(Mnemonic::Addi, inst.rd, inst.rd, None, Some(Imm::Value(l))),
                    ]
                }
            },
            Some(Imm::Label(l)) => return Err(Error::InvalidImmediate(l.clone())),
            Some(Imm::LabelHi(l)) => return Err(Error::InvalidImmediate(l.clone())),
            Some(Imm::LabelLo(l)) => return Err(Error::InvalidImmediate(l.clone())),
            None => {
                let t = inst.name.text();
                return Err(Error::MissingOperand(string_from(t.as_slice())));
            },
        },
        Mnemonic::La => match &inst.imm {
            Some(Imm::Value(v)) => {
                let (h, l) = split_large_imm(*v);
                vec![
                    make(Mnemonic::Auipc, inst.rd, None, None, Some(Imm::Value(h))),
                    make(Mnemonic::Addi, inst.rd, inst.rd, None, Some(Imm::Value(l))),
                ]
            },
            Some(Imm::Label(l)) => vec![
                make(Mnemonic::Auipc, inst.rd, None, None, Some(Imm::LabelHi(l.clone()))),
                make(Mnemonic::Addi, inst.rd, inst.rd, None, Some(Imm::LabelLo(l.clone()))),
            ],
            Some(Imm::LabelHi(l)) => return Err(Error::InvalidImmediate(l.clone())),
            Some(Imm::LabelLo(l)) => return Err(Error::InvalidImmediate(l.clone())),
            None => {
                let t = inst.name.text();
                return Err(Error::MissingOperand(string_from(t.as_slice())));
            },
        },
        _ => vec![copy_inst(inst)],
    };
    proof {
        assert(inst_views(out@) =~= expand_spec(inst@)->Ok_0);
    }
    Ok(out)
}

/// A label table with its names seen as character sequences.
pub open spec fn label_views(v: Seq<(String, u32)>) -> Seq<(Seq<char>, u32)> {
    v.map_values(|p: (String, u32)| (p.0@, p.1))
}

/// The value recorded for label `name`: its last definition wins.
pub open spec fn lookup_label(ls: Seq<(Seq<char>, u32)>, name: Seq<char>) -> Option<u32>
    decreases ls.len(),
{
    if ls.len() == 0 {
        None
    } else if ls.last().0 == name {
        Some(ls.last().1)
    } else {
        lookup_label(ls.drop_last(), name)
    }
}

/// The byte offset from instruction `from` to instruction `to`, if it fits 32 bits.
pub open spec fn offset_spec(to: int, from: int) -> Option<i32> {
    let off = (to - from) * 4;
    if i32::MIN <= off <= i32::MAX {
        Some(off as i32)
    } else {
        None
    }
}

pub open spec fn with_imm(i: InstView, v: i32) -> InstView {
    InstView { name: i.name, rd: i.rd, rs1: i.rs1, rs2: i.rs2, imm: Some(ImmView::Value(v)) }
}

/// Operation `i`, standing at index `at`, with a label immediate replaced by its value.
pub open spec fn resolve_one(i: InstView, at: int, ls: Seq<(Seq<char>, u32)>) -> Result<
    InstView,
    ErrorView,
> {
    match i.imm {
        Some(ImmView::Label(l)) => match lookup_label(ls, l) {
            None => Err(ErrorView::UnresolvedLabel(l)),
            Some(t) => match offset_spec(t as int, at) {
                Some(off) => Ok(with_imm(i, off)),
                None => Err(ErrorView::OffsetOutOfRange(l)),
            },
        },
        Some(ImmView::LabelHi(l)) => match lookup_label(ls, l) {
            None => Err(ErrorView::UnresolvedLabel(l)),
            Some(t) => match offset_spec(t as int, at) {
                Some(off) => Ok(with_imm(i, split_spec(off as int).0 as i32)),
                None => Err(ErrorView::OffsetOutOfRange(l)),
            },
        },
        Some(ImmView::LabelLo(l)) => match lookup_label(ls, l) {
            None => Err(ErrorView::UnresolvedLabel(l)),
            Some(t) => match offset_spec(t as int, at - 1) {
                Some(off) => Ok(with_imm(i, split_spec(off as int).1 as i32)),
                None => Err(ErrorView::OffsetOutOfRange(l)),
            },
        },
        _ => Ok(i),
    }
}

/// The first `n` operations with their labels resolved, or the first failure.
pub open spec fn resolve_all(s: Seq<InstView>, ls: Seq<(Seq<char>, u32)>, n: nat) -> Result<
    Seq<InstView>,
    ErrorView,
>
    decreases n,
{
    if n == 0 {
        Ok(seq![])
    } else {
        match resolve_all(s, ls, (n - 1) as nat) {
            Err(e) => Err(e),
            Ok(done) => match resolve_one(s[n - 1], n - 1, ls) {
                Ok(x) => Ok(done.push(x)),
                Err(e) => Err(e),
            },
        }
    }
}

/// The value recorded for label `name` in `labels` (its last definition).
pub fn find_label(labels: &Vec<(String, u32)>, name: &String) -> (r: Option<u32>)
    ensures
        r == lookup_label(label_views(labels@), name@),
{
    let ghost lv = label_views(labels@);
    let mut i: usize = labels.len();
    assert(lv.take(i as int) =~= lv);
    while i > 0
        invariant
            i <= labels@.len(),
            lv == label_views(labels@),
            lookup_label(lv, name@) == lookup_label(lv.take(i as int), name@),
        decreases i,
    {
        let ghost prefix = lv.take(i as int);
        assert(prefix.drop_last() =~= lv.take(i - 1));
        i = i - 1;
        if labels[i].0 == *name {
            return Some(labels[i].1);
        }
    }
    None
}

/// The byte offset from instruction `from` to instruction `to`, if it fits 32 bits.
fn offset(to: u32, from: i128) -> (r: Option<i32>)
    requires
        -1 <= from <= usize::MAX,
    ensures
        r == offset_spec(to as int, from as int),
{
    let off: i128 = (to as i128 - from) * 4;
    if -0x8000_0000 <= off && off <= 0x7fff_ffff {
        Some(off as i32)
    } else {
        None
    }
}

/// Resolves the label immediate of one operation standing at index `at`.
fn resolve_inst(inst: &Inst, at: usize, labels: &Vec<(String, u32)>) -> (r: Result<Inst, Error>)
    ensures
        match (r, resolve_one(inst@, at as int, label_views(labels@))) {
            (Ok(x), Ok(s)) => x@ == s,
            (Err(e), Err(s)) => e@ == s,
            _ => false,
        },
{
    match &inst.imm {
        Some(Imm::Label(l)) => match find_label(labels, l) {
            None => Err(Error::UnresolvedLabel(l.clone())),
            Some(t) => match offset(t, at as i128) {
                Some(off) => Ok(make(inst.name, inst.rd, inst.rs1, inst.rs2, Some(Imm::Value(off)))),
                None => Err(Error::OffsetOutOfRange(l.clone())),
            },
        },
        Some(Imm::LabelHi(l)) => match find_label(labels, l) {
            None => Err(Error::UnresolvedLabel(l.clone())),
            Some(t) => match offset(t, at as i128) {
                Some(off) => {
                    let (h, _) = split_large_imm(off);
                    Ok(make(inst.name, inst.rd, inst.rs1, inst.rs2, Some(Imm::Value(h))))
                },
                None => Err(Error::OffsetOutOfRange(l.clone())),
            },
        },
        Some(Imm::LabelLo(l)) => match find_label(labels, l) {
            None => Err(Error::UnresolvedLabel(l.clone())),
            Some(t) => match offset(t, at as i128 - 1) {
                Some(off) => {
                    let (_, lo) = split_large_imm(off);
                    Ok(make(inst.name, inst.rd, inst.rs1, inst.rs2, Some(Imm::Value(lo))))
                },
                None => Err(Error::OffsetOutOfRange(l.clone())),
            },
        },
        _ => Ok(copy_inst(inst)),
    }
}

/// Replaces every label immediate by the byte offset from its operation to the label
/// (for a `LabelHi` / `LabelLo` pair, by the split parts of the offset from the first of
/// the two), stopping at the first label that is undefined or too far.
pub fn process_labels(input: &mut Vec<Inst>, labels: &Vec<(String, u32)>) -> (r: Result<(), Error>)
    ensures
        final(input)@.len() == old(input)@.len(),
        match (r, resolve_all(inst_views(old(input)@), label_views(labels@), old(input)@.len())) {
            (Ok(_), Ok(s)) => inst_views(final(input)@) == s,
            (Err(e), Err(s)) => e@ == s,
            _ => false,
        },
{
    let ghost orig = inst_views(input@);
    let mut i: usize = 0;
    assert(inst_views(input@.take(0)) =~= seq![]);
    assert(orig.len() == old(input)@.len());
    while i < input.len()
        invariant
            i <= input@.len(),
            orig == inst_views(old(input)@),
            input@.len() == orig.len(),
            forall|k: int| i <= k < input@.len() ==> #[trigger] input@[k]@ == orig[k],
            resolve_all(orig, label_views(labels@), i as nat) == Ok::<Seq<InstView>, ErrorView>(
                inst_views(input@.take(i as int)),
            ),
        decreases input@.len() - i,
    {
        let x = resolve_inst(&input[i], i, labels);
        match x {
            Ok(new_inst) => {
                let ghost before = input@;
                input[i] = new_inst;
                proof {
                    assert(inst_views(input@.take(i + 1)) =~= inst_views(before.take(i as int)).push(
                        new_inst@,
                    ));
                    assert forall|k: int| i + 1 <= k < input@.len() implies #[trigger] input@[k]@
                        == orig[k] by {
                        assert(input@[k] == before[k]);
                    }
                }
            },
            Err(e) => {
                proof {
                    assert(input@[i as int]@ == orig[i as int]);
                    assert(resolve_one(orig[i as int], i as int, label_views(labels@)) == Err::<InstView, ErrorView>(e@));
                    assert(resolve_all(orig, label_views(labels@), (i + 1) as nat) == Err::<Seq<InstView>, ErrorView>(e@));
                    lemma_resolve_all_err(orig, label_views(labels@), (i + 1) as nat, orig.len());
                }
                return Err(e);
            },
        }
        i = i + 1;
    }
    assert(input@.take(input@.len() as int) =~= input@);
    Ok(())
}

/// Once resolution fails on a prefix, it fails the same way on every longer prefix.
proof fn lemma_resolve_all_err(s: Seq<InstView>, ls: Seq<(Seq<char>, u32)>, n: nat, m: nat)
    requires
        n <= m,
        resolve_all(s, ls, n) is Err,
    ensures
        resolve_all(s, ls, m) == resolve_all(s, ls, n),
    decreases m - n,
{
    if n < m {
        lemma_resolve_all_err(s, ls, n, (m - 1) as nat);
    }
}

/// A reference to a label that the table does not define makes compilation fail with
/// `UnresolvedLabel` naming it, once every operation before it resolves.
pub proof fn lemma_undefined_label_fails(
    s: Seq<InstView>,
    ls: Seq<(Seq<char>, u32)>,
    i: int,
    l: Seq<char>,
)
    requires
        0 <= i < s.len(),
        s[i].imm == Some(ImmView::Label(l)),
        lookup_label(ls, l) is None,
        resolve_all(s, ls, i as nat) is Ok,
    ensures
        compile_spec(s, ls) == Err::<Seq<u32>, ErrorView>(ErrorView::UnresolvedLabel(l)),
{
    assert(resolve_all(s, ls, (i + 1) as nat) == Err::<Seq<InstView>, ErrorView>(
        ErrorView::UnresolvedLabel(l),
    ));
    lemma_resolve_all_err(s, ls, (i + 1) as nat, s.len());
}

/// The register field at bit `lo` set to `r`, when there is one.
pub open spec fn set_reg(w: u32, lo: u32, r: Option<u32>) -> u32 {
    match r {
        Some(x) => with_field(w, 0x1f, lo, x),
        None => w,
    }
}

pub open spec fn reg_fits(r: Option<u32>) -> bool {
    match r {
        Some(x) => x < 32,
        None => true,
    }
}

/// The immediate given to the U-format encoder for an upper-immediate operand: the
/// operand names bits 12 to 31 of the value.
pub open spec fn upper_imm(v: i32) -> i32 {
    ((v as u32) << 12u32) as i32
}

/// Whether the immediate operand `v` of mnemonic `m` in format `f` can be encoded:
/// 12 bits (read signed or unsigned) for I and S, a shift amount below 32 for the
/// shifts, an even 13-bit or 21-bit signed offset for B and J; U keeps the low 20 bits
/// of its operand and takes any value.
pub open spec fn imm_encodable(m: Mnemonic, f: InstructionFormat, v: i32) -> bool {
    match f {
        InstructionFormat::R => false,
        InstructionFormat::I => if m == Mnemonic::Slli || m == Mnemonic::Srli || m == Mnemonic::Srai {
            0 <= v < 32
        } else {
            -2048 <= v < 4096
        },
        InstructionFormat::S => -2048 <= v < 4096,
        InstructionFormat::B => -4096 <= v < 4096 && v % 2 == 0,
        InstructionFormat::J => -0x100000 <= v < 0x100000 && v % 2 == 0,
        InstructionFormat::U => true,
    }
}

fn imm_encodable_exec(m: Mnemonic, f: InstructionFormat, v: i32) -> (r: bool)
    ensures
        r == imm_encodable(m, f, v),
{
    match f {
        InstructionFormat::R => false,
        InstructionFormat::I => if m == Mnemonic::Slli || m == Mnemonic::Srli || m == Mnemonic::Srai {
            0 <= v && v < 32
        } else {
            -2048 <= v && v < 4096
        },
        InstructionFormat::S => -2048 <= v && v < 4096,
        InstructionFormat::B => -4096 <= v && v < 4096 && v % 2 == 0,
        InstructionFormat::J => -0x100000 <= v && v < 0x100000 && v % 2 == 0,
        InstructionFormat::U => true,
    }
}

/// The word that encodes operation `i`: opcode, funct3 and funct7 from its table row,
/// then its registers, then its immediate in the row's format.
pub open spec fn gen_spec(i: InstView) -> Result<u32, ErrorView> {
    match iset_row(i.name) {
        None => Err(ErrorView::UnknownMnemonic(spelling(i.name))),
        Some(row) => if !reg_fits(i.rd) {
            Err(ErrorView::RegisterOutOfRange(i.rd->0))
        } else if !reg_fits(i.rs1) {
            Err(ErrorView::RegisterOutOfRange(i.rs1->0))
        } else if !reg_fits(i.rs2) {
            Err(ErrorView::RegisterOutOfRange(i.rs2->0))
        } else {
            let w0 = with_field(0, 0x7f, 0, row.0);
            let w1 = match row.1 {
                Some(f3) => with_field(w0, 0x7, 12, f3),
                None => w0,
            };
            let w2 = match row.2 {
                Some(f7) => with_field(w1, 0x7f, 25, f7),
                None => w1,
            };
            let w = set_reg(set_reg(set_reg(w2, 7, i.rd), 15, i.rs1), 20, i.rs2);
            match i.imm {
                None => Ok(w),
                Some(ImmView::Value(v)) => match row.4 {
                    InstructionFormat::R => Err(ErrorView::InvalidInstruction(w)),
                    InstructionFormat::U => Ok(encode_imm(w, InstructionFormat::U, upper_imm(v))),
                    f => if imm_encodable(i.name, f, v) {
                        Ok(encode_imm(w, f, v))
                    } else {
                        Err(ErrorView::ImmediateOutOfRange(v))
                    },
                },
                Some(ImmView::Label(l)) => Err(ErrorView::UnresolvedLabel(l)),
                Some(ImmView::LabelHi(l)) => Err(ErrorView::UnresolvedLabel(l)),
                Some(ImmView::LabelLo(l)) => Err(ErrorView::UnresolvedLabel(l)),
            }
        },
    }
}

fn check_reg(r: Option<u32>) -> (res: Result<(), Error>)
    ensures
        reg_fits(r) <==> res is Ok,
        !reg_fits(r) ==> res == Err::<(), Error>(Error::RegisterOutOfRange(r->0)),
{
    match r {
        Some(x) => if x < 32 {
            Ok(())
        } else {
            Err(Error::RegisterOutOfRange(x))
        },
        None => Ok(()),
    }
}

/// Encodes one canonical operation whose immediate is already a number.
pub fn gen_code(input: &Inst) -> (r: Result<Instruction, Error>)
    ensures
        match (r, gen_spec(input@)) {
            (Ok(x), Ok(w)) => x.0 == w,
            (Err(e), Err(s)) => e@ == s,
            _ => false,
        },
{
    let row = match input.name.iset_row() {
        Some(row) => row,
        None => {
            let t = input.name.text();
            return Err(Error::UnknownMnemonic(string_from(t.as_slice())));
        },
    };
    check_reg(input.rd)?;
    check_reg(input.rs1)?;
    check_reg(input.rs2)?;
    let mut inst = Instruction(0);
    inst.set_opcode(row.0);
    if let Some(funct3) = row.1 {
        inst.set_funct3(funct3);
    }
    if let Some(funct7) = row.2 {
        inst.set_funct7(funct7);
    }
    if let Some(rd) = input.rd {
        inst.set_rd(rd);
    }
    if let Some(rs1) = input.rs1 {
        inst.set_rs1(rs1);
    }
    if let Some(rs2) = input.rs2 {
        inst.set_rs2(rs2);
    }
    match &input.imm {
        None => {},
        Some(Imm::Value(v)) => match row.4 {
            InstructionFormat::R => return Err(Error::InvalidInstruction(inst.0)),
            InstructionFormat::U => {
                let shifted = ((*v as u32) << 12u32) as i32;
                inst.set_imm_by_format(InstructionFormat::U, shifted);
            },
            f => {
                if !imm_encodable_exec(input.name, f, *v) {
                    return Err(Error::ImmediateOutOfRange(*v));
                }
                inst.set_imm_by_format(f, *v);
            },
        },
        Some(Imm::Label(l)) => return Err(Error::UnresolvedLabel(l.clone())),
        Some(Imm::LabelHi(l)) => return Err(Error::UnresolvedLabel(l.clone())),
        Some(Imm::LabelLo(l)) => return Err(Error::UnresolvedLabel(l.clone())),
    }
    Ok(inst)
}

/// Assembled I-format words decode back to their operation: for a register-immediate
/// operation without funct7 (arithmetic, loads, `jalr`) whose immediate fits 12 signed
/// bits, the encoded word holds the table's opcode and funct3, both registers and the
/// immediate where the machine reads them.
pub proof fn lemma_gen_i_decodes(m: Mnemonic, rd: u32, rs1: u32, v: i32)
    requires
        iset_row(m) matches Some(row) && row.4 == InstructionFormat::I && row.1 is Some
            && row.2 is None,
        rd < 32,
        rs1 < 32,
        -2048 <= v < 2048,
    ensures
        gen_spec(op(m, Some(rd), Some(rs1), None, Some(ImmView::Value(v)))) is Ok,
        ({
            let w = gen_spec(op(m, Some(rd), Some(rs1), None, Some(ImmView::Value(v))))->Ok_0;
            let row = iset_row(m)->Some_0;
            &&& opcode_of(w) == row.0
            &&& funct3_of(w) == row.1->Some_0
            &&& rd_of(w) == rd
            &&& rs1_of(w) == rs1
            &&& decode_imm(w, InstructionFormat::I) == v
        }),
{
    reveal_with_fuel(crate::instruction::gather, 2);
    reveal_with_fuel(crate::instruction::scatter, 2);
    reveal_with_fuel(crate::instruction::highest_bit, 2);
    let row = iset_row(m)->0;
    let opc = row.0;
    let f3 = row.1->0;
    assert(opc < 128 && f3 < 8);
    let x = #[verifier::truncate] (v as u32);
    let w0 = with_field(with_field(with_field(with_field(0, 0x7f, 0, opc), 0x7, 12, f3), 0x1f, 7, rd), 0x1f, 15, rs1);
    let w = w0 | (((x >> 0u32) & low_mask(12)) << 20u32);
    assert(encode_imm(w0, InstructionFormat::I, v) == w);
    assert(x < 0x800 || x >= 0xfffff800) by (bit_vector)
        requires
            x == v as u32,
            -2048 <= v < 2048,
    ;
    assert(x as i32 == v) by (bit_vector)
        requires
            x == v as u32,
    ;
    assert(opcode_of(w) == opc && funct3_of(w) == f3 && rd_of(w) == rd && rs1_of(w) == rs1
        && sign_extend_at(0u32 | piece_value(w, 20, 0, 12), 11) == x) by (bit_vector)
        requires
            opc < 128,
            f3 < 8,
            rd < 32,
            rs1 < 32,
            x < 0x800 || x >= 0xfffff800,
            w0 == with_field(with_field(with_field(with_field(0, 0x7f, 0, opc), 0x7, 12, f3), 0x1f, 7, rd), 0x1f, 15, rs1),
            w == w0 | (((x >> 0u32) & low_mask(12)) << 20u32),
    ;
}

/// Assembled R-format words decode back to their operation: the table's opcode, funct3
/// and funct7, and the three registers.
pub proof fn lemma_gen_r_decodes(m: Mnemonic, rd: u32, rs1: u32, rs2: u32)
    requires
        iset_row(m) matches Some(row) && row.4 == InstructionFormat::R && row.1 is Some
            && row.2 is Some,
        rd < 32,
        rs1 < 32,
        rs2 < 32,
    ensures
        gen_spec(op(m, Some(rd), Some(rs1), Some(rs2), None)) is Ok,
        ({
            let w = gen_spec(op(m, Some(rd), Some(rs1), Some(rs2), None))->Ok_0;
            let row = iset_row(m)->Some_0;
            &&& opcode_of(w) == row.0
            &&& funct3_of(w) == row.1->Some_0
            &&& funct7_of(w) == row.2->Some_0
            &&& rd_of(w) == rd
            &&& rs1_of(w) == rs1
            &&& rs2_of(w) == rs2
        }),
{
    let row = iset_row(m)->0;
    let opc = row.0;
    let f3 = row.1->0;
    let f7 = row.2->0;
    assert(opc < 128 && f3 < 8 && f7 < 128);
    let w = with_field(
        with_field(
            with_field(
                with_field(with_field(with_field(0, 0x7f, 0, opc), 0x7, 12, f3), 0x7f, 25, f7),
                0x1f,
                7,
                rd,
            ),
            0x1f,
            15,
            rs1,
        ),
        0x1f,
        20,
        rs2,
    );
    assert(opcode_of(w) == opc && funct3_of(w) == f3 && funct7_of(w) == f7 && rd_of(w) == rd
        && rs1_of(w) == rs1 && rs2_of(w) == rs2) by (bit_vector)
        requires
            opc < 128,
            f3 < 8,
            f7 < 128,
            rd < 32,
            rs1 < 32,
            rs2 < 32,
            w == with_field(
                with_field(
                    with_field(
                        with_field(
                            with_field(with_field(0, 0x7f, 0, opc), 0x7, 12, f3),
                            0x7f,
                            25,
                            f7,
                        ),
                        0x1f,
                        7,
                        rd,
                    ),
                    0x1f,
                    15,
                    rs1,
                ),
                0x1f,
                20,
                rs2,
            ),
    ;
}

/// Assembled branch words decode back to their operation: the table's opcode and
/// funct3, both registers, and any even offset that fits 13 signed bits.
pub proof fn lemma_gen_b_decodes(m: Mnemonic, rs1: u32, rs2: u32, v: i32)
    requires
        iset_row(m) matches Some(row) && row.4 == InstructionFormat::B && row.1 is Some
            && row.2 is None,
        rs1 < 32,
        rs2 < 32,
        -4096 <= v < 4096,
        v % 2 == 0,
    ensures
        gen_spec(op(m, None, Some(rs1), Some(rs2), Some(ImmView::Value(v)))) is Ok,
        ({
            let w = gen_spec(op(m, None, Some(rs1), Some(rs2), Some(ImmView::Value(v))))->Ok_0;
            let row = iset_row(m)->Some_0;
            &&& opcode_of(w) == row.0
            &&& funct3_of(w) == row.1->Some_0
            &&& rs1_of(w) == rs1
            &&& rs2_of(w) == rs2
            &&& decode_imm(w, InstructionFormat::B) == v
        }),
{
    reveal_with_fuel(crate::instruction::gather, 5);
    reveal_with_fuel(crate::instruction::scatter, 5);
    reveal_with_fuel(crate::instruction::highest_bit, 5);
    let row = iset_row(m)->0;
    let opc = row.0;
    let f3 = row.1->0;
    assert(opc < 128 && f3 < 8);
    let x = #[verifier::truncate] (v as u32);
    let w0 = with_field(with_field(with_field(with_field(0, 0x7f, 0, opc), 0x7, 12, f3), 0x1f, 15, rs1), 0x1f, 20, rs2);
    let w = (((w0 | (((x >> 11u32) & low_mask(1)) << 7u32)) | (((x >> 1u32) & low_mask(4)) << 8u32))
        | (((x >> 5u32) & low_mask(6)) << 25u32)) | (((x >> 12u32) & low_mask(1)) << 31u32);
    assert(encode_imm(w0, InstructionFormat::B, v) == w);
    assert((x < 0x1000 || x >= 0xfffff000) && x & 1 == 0 && x as i32 == v) by (bit_vector)
        requires
            x == v as u32,
            -4096 <= v < 4096,
            v % 2 == 0,
    ;
    assert(opcode_of(w) == opc && funct3_of(w) == f3 && rs1_of(w) == rs1 && rs2_of(w) == rs2
        && sign_extend_at(
        (((0u32 | piece_value(w, 7, 11, 1)) | piece_value(w, 8, 1, 4)) | piece_value(w, 25, 5, 6))
            | piece_value(w, 31, 12, 1),
        12,
    ) == x) by (bit_vector)
        requires
            opc < 128,
            f3 < 8,
            rs1 < 32,
            rs2 < 32,
            x < 0x1000 || x >= 0xfffff000,
            x & 1 == 0,
            w0 == with_field(with_field(with_field(with_field(0, 0x7f, 0, opc), 0x7, 12, f3), 0x1f, 15, rs1), 0x1f, 20, rs2),
            w == (((w0 | (((x >> 11u32) & low_mask(1)) << 7u32)) | (((x >> 1u32) & low_mask(4))
                << 8u32)) | (((x >> 5u32) & low_mask(6)) << 25u32)) | (((x >> 12u32) & low_mask(1))
                << 31u32),
    ;
}

/// Assembled store words decode back to their operation: the table's opcode and funct3,
/// base and source registers, and any offset that fits 12 signed bits.
pub proof fn lemma_gen_s_decodes(m: Mnemonic, rs1: u32, rs2: u32, v: i32)
    requires
        iset_row(m) matches Some(row) && row.4 == InstructionFormat::S && row.1 is Some
            && row.2 is None,
        rs1 < 32,
        rs2 < 32,
        -2048 <= v < 2048,
    ensures
        gen_spec(op(m, None, Some(rs1), Some(rs2), Some(ImmView::Value(v)))) is Ok,
        ({
            let w = gen_spec(op(m, None, Some(rs1), Some(rs2), Some(ImmView::Value(v))))->Ok_0;
            let row = iset_row(m)->Some_0;
            &&& opcode_of(w) == row.0
            &&& funct3_of(w) == row.1->Some_0
            &&& rs1_of(w) == rs1
            &&& rs2_of(w) == rs2
            &&& decode_imm(w, InstructionFormat::S) == v
        }),
{
    reveal_with_fuel(crate::instruction::gather, 3);
    reveal_with_fuel(crate::instruction::scatter, 3);
    reveal_with_fuel(crate::instruction::highest_bit, 3);
    let row = iset_row(m)->0;
    let opc = row.0;
    let f3 = row.1->0;
    assert(opc < 128 && f3 < 8);
    let x = #[verifier::truncate] (v as u32);
    let w0 = with_field(with_field(with_field(with_field(0, 0x7f, 0, opc), 0x7, 12, f3), 0x1f, 15, rs1), 0x1f, 20, rs2);
    let w = (w0 | (((x >> 0u32) & low_mask(5)) << 7u32)) | (((x >> 5u32) & low_mask(7)) << 25u32);
    assert(encode_imm(w0, InstructionFormat::S, v) == w);
    assert((x < 0x800 || x >= 0xfffff800) && x as i32 == v) by (bit_vector)
        requires
            x == v as u32,
            -2048 <= v < 2048,
    ;
    assert(opcode_of(w) == opc && funct3_of(w) == f3 && rs1_of(w) == rs1 && rs2_of(w) == rs2
        && sign_extend_at((0u32 | piece_value(w, 7, 0, 5)) | piece_value(w, 25, 5, 7), 11) == x)
        by (bit_vector)
        requires
            opc < 128,
            f3 < 8,
            rs1 < 32,
            rs2 < 32,
            x < 0x800 || x >= 0xfffff800,
            w0 == with_field(with_field(with_field(with_field(0, 0x7f, 0, opc), 0x7, 12, f3), 0x1f, 15, rs1), 0x1f, 20, rs2),
            w == (w0 | (((x >> 0u32) & low_mask(5)) << 7u32)) | (((x >> 5u32) & low_mask(7))
                << 25u32),
    ;
}

/// Assembled `jal` words decode back to their operation: the opcode, the link register
/// and any even offset that fits 21 signed bits.
pub proof fn lemma_gen_j_decodes(rd: u32, v: i32)
    requires
        rd < 32,
        -0x100000 <= v < 0x100000,
        v % 2 == 0,
    ensures
        gen_spec(op(Mnemonic::Jal, Some(rd), None, None, Some(ImmView::Value(v)))) is Ok,
        ({
            let w = gen_spec(op(Mnemonic::Jal, Some(rd), None, None, Some(ImmView::Value(v))))->Ok_0;
            &&& opcode_of(w) == 0b1101111
            &&& rd_of(w) == rd
            &&& decode_imm(w, InstructionFormat::J) == v
        }),
{
    reveal_with_fuel(crate::instruction::gather, 5);
    reveal_with_fuel(crate::instruction::scatter, 5);
    reveal_with_fuel(crate::instruction::highest_bit, 5);
    let x = #[verifier::truncate] (v as u32);
    let w0 = with_field(with_field(0, 0x7f, 0, 0b1101111), 0x1f, 7, rd);
    let w = (((w0 | (((x >> 12u32) & low_mask(8)) << 12u32)) | (((x >> 11u32) & low_mask(1))
        << 20u32)) | (((x >> 1u32) & low_mask(10)) << 21u32)) | (((x >> 20u32) & low_mask(1))
        << 31u32);
    assert(encode_imm(w0, InstructionFormat::J, v) == w);
    assert((x < 0x100000 || x >= 0xfff00000) && x & 1 == 0 && x as i32 == v) by (bit_vector)
        requires
            x == v as u32,
            -0x100000 <= v < 0x100000,
            v % 2 == 0,
    ;
    assert(opcode_of(w) == 0b1101111 && rd_of(w) == rd && sign_extend_at(
        (((0u32 | piece_value(w, 12, 12, 8)) | piece_value(w, 20, 11, 1)) | piece_value(w, 21, 1, 10))
            | piece_value(w, 31, 20, 1),
        20,
    ) == x) by (bit_vector)
        requires
            rd < 32,
            x < 0x100000 || x >= 0xfff00000,
            x & 1 == 0,
            w0 == with_field(with_field(0, 0x7f, 0, 0b1101111), 0x1f, 7, rd),
            w == (((w0 | (((x >> 12u32) & low_mask(8)) << 12u32)) | (((x >> 11u32) & low_mask(1))
                << 20u32)) | (((x >> 1u32) & low_mask(10)) << 21u32)) | (((x >> 20u32) & low_mask(
                1,
            )) << 31u32),
    ;
}

/// Assembled `lui` / `auipc` words decode back to their operation: the table's opcode,
/// the destination register, and the operand's low 20 bits as the upper 20 bits of the
/// immediate.
pub proof fn lemma_gen_u_decodes(m: Mnemonic, rd: u32, v: i32)
    requires
        m == Mnemonic::Lui || m == Mnemonic::Auipc,
        rd < 32,
    ensures
        gen_spec(op(m, Some(rd), None, None, Some(ImmView::Value(v)))) is Ok,
        ({
            let w = gen_spec(op(m, Some(rd), None, None, Some(ImmView::Value(v))))->Ok_0;
            let row = iset_row(m)->Some_0;
            &&& opcode_of(w) == row.0
            &&& rd_of(w) == rd
            &&& decode_imm(w, InstructionFormat::U) == upper_imm(v)
        }),
{
    reveal_with_fuel(crate::instruction::gather, 2);
    reveal_with_fuel(crate::instruction::scatter, 2);
    let row = iset_row(m)->0;
    let opc = row.0;
    assert(opc < 128);
    let x = #[verifier::truncate] (upper_imm(v) as u32);
    let w0 = with_field(with_field(0, 0x7f, 0, opc), 0x1f, 7, rd);
    let w = w0 | (((x >> 12u32) & low_mask(20)) << 12u32);
    assert(encode_imm(w0, InstructionFormat::U, upper_imm(v)) == w);
    assert(x as i32 == upper_imm(v)) by (bit_vector)
        requires
            x == upper_imm(v) as u32,
    ;
    assert(opcode_of(w) == opc && rd_of(w) == rd && 0u32 | piece_value(w, 12, 12, 20) == x)
        by (bit_vector)
        requires
            opc < 128,
            rd < 32,
            x == ((v as u32) << 12u32) as i32 as u32,
            w0 == with_field(with_field(0, 0x7f, 0, opc), 0x1f, 7, rd),
            w == w0 | (((x >> 12u32) & low_mask(20)) << 12u32),
    ;
}

/// The words of the first `n` operations of `s`, or the first failure.
pub open spec fn gen_all(s: Seq<InstView>, n: nat) -> Result<Seq<u32>, ErrorView>
    decreases n,
{
    if n == 0 {
        Ok(seq![])
    } else {
        match gen_all(s, (n - 1) as nat) {
            Err(e) => Err(e),
            Ok(ws) => match gen_spec(s[n - 1]) {
                Ok(w) => Ok(ws.push(w)),
                Err(e) => Err(e),
            },
        }
    }
}

/// A program's words: labels resolved first, then every operation encoded.
pub open spec fn compile_spec(s: Seq<InstView>, ls: Seq<(Seq<char>, u32)>) -> Result<
    Seq<u32>,
    ErrorView,
> {
    match resolve_all(s, ls, s.len()) {
        Err(e) => Err(e),
        Ok(resolved) => gen_all(resolved, resolved.len()),
    }
}

pub open spec fn words(v: Seq<Instruction>) -> Seq<u32> {
    v.map_values(|x: Instruction| x.0)
}

proof fn lemma_gen_all_err(s: Seq<InstView>, n: nat, m: nat)
    requires
        n <= m,
        gen_all(s, n) is Err,
    ensures
        gen_all(s, m) == gen_all(s, n),
    decreases m - n,
{
    if n < m {
        lemma_gen_all_err(s, n, (m - 1) as nat);
    }
}

/// Encodes every operation of a list whose labels are resolved.
fn gen_codes(input: &Vec<Inst>) -> (r: Result<Vec<Instruction>, Error>)
    ensures
        match (r, gen_all(inst_views(input@), input@.len())) {
            (Ok(v), Ok(s)) => words(v@) == s,
            (Err(e), Err(s)) => e@ == s,
            _ => false,
        },
{
    let ghost resolved = inst_views(input@);
    let mut output: Vec<Instruction> = Vec::new();
    let mut i: usize = 0;
    assert(words(output@) =~= seq![]);
    while i < input.len()
        invariant
            i <= input@.len(),
            resolved == inst_views(input@),
            gen_all(resolved, i as nat) == Ok::<Seq<u32>, ErrorView>(words(output@)),
        decreases input@.len() - i,
    {
        match gen_code(&input[i]) {
            Ok(w) => {
                let ghost before = output@;
                output.push(w);
                proof {
                    assert(words(output@) =~= words(before).push(w.0));
                }
            },
            Err(e) => {
                proof {
                    assert(resolved[i as int] == input@[i as int]@);
                    assert(gen_all(resolved, (i + 1) as nat) == Err::<Seq<u32>, ErrorView>(e@));
                    lemma_gen_all_err(resolved, (i + 1) as nat, resolved.len());
                }
                return Err(e);
            },
        }
        i = i + 1;
    }
    Ok(output)
}

/// Resolves the labels of a canonical operation list and encodes every operation.
pub fn compile(input: Vec<Inst>, labels: &Vec<(String, u32)>) -> (r: Result<
    Vec<Instruction>,
    Error,
>)
    ensures
        match (r, compile_spec(inst_views(input@), label_views(labels@))) {
            (Ok(v), Ok(s)) => words(v@) == s,
            (Err(e), Err(s)) => e@ == s,
            _ => false,
        },
{
    let mut insts = input;
    match process_labels(&mut insts, labels) {
        Ok(()) => {},
        Err(e) => return Err(e),
    }
    gen_codes(&insts)
}

} // verus!
