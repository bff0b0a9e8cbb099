use risclang::instruction::{Instruction, InstructionFormat};
use risclang::instruction::InstructionFormat::{B, I, J, S, U};
use risclang::Error;

#[test]
fn test_imm_pieces() {
    let tests: &[(u32, &[(u32, u32, u32)], bool, i32)] = &[
        (
            0b11110000_11110000_11110000_11001100,
            &[(0, 0, 4), (12, 8, 4)],
            false,
            0b1111_00001100,
        ),
        (
            0b11110000_11110000_11110000_11001100,
            &[(0, 0, 4), (12, 8, 4)],
            true,
            0xFFFFFF0Cu32 as i32,
        ),
    ];
    for test in tests {
        let output = Instruction(test.0).imm_by_pieces(test.1, test.2);
        println!("{:0b}", output);
        assert_eq!(output, test.3);
    }
}

#[test]
fn test_imm_pieces_formats() {
    let tests = &[
        (0x00000013, I, 0),
        (0xfff00013, I, -1),
        (0xaaa00013, I, -1366),
        (0x00000023, S, 0),
        (0xfe000fa3, S, -1),
        (0xaa000523, S, -1366),
    ];
    for test in tests {
        let output = Instruction(test.0).imm_by_format(test.1);
        println!("{output:0b}");
        assert_eq!(output, test.2);
    }
}

#[test]
fn field_accessors_read_each_field() {
    // add x3, x1, x2 with funct7 0100000 (sub)
    let w = Instruction(0b0100000_00010_00001_000_00011_0110011);
    assert_eq!(w.opcode(), 0b0110011);
    assert_eq!(w.rd(), 3);
    assert_eq!(w.funct3(), 0);
    assert_eq!(w.rs1(), 1);
    assert_eq!(w.rs2(), 2);
    assert_eq!(w.funct7(), 0b0100000);
}

#[test]
fn field_setters_leave_other_fields_alone() {
    let mut w = Instruction(0xffff_ffff);
    w.set_rd(0);
    assert_eq!(w.0, 0xffff_f07f);
    w.set_rd(5);
    assert_eq!(w.rd(), 5);
    assert_eq!(w.opcode(), 0x7f);
    assert_eq!(w.funct3(), 7);
    let mut z = Instruction(0);
    z.set_opcode(0b0010011);
    z.set_funct3(0b101);
    z.set_rs1(31);
    z.set_rs2(17);
    z.set_funct7(0b0100000);
    assert_eq!(z.0, 0b0100000_10001_11111_101_00000_0010011);
}

#[test]
fn format_by_opcode() {
    assert_eq!(Instruction(0x33).format(), Ok(InstructionFormat::R));
    assert_eq!(Instruction(0x13).format(), Ok(InstructionFormat::I));
    assert_eq!(Instruction(0x03).format(), Ok(InstructionFormat::I));
    assert_eq!(Instruction(0x23).format(), Ok(InstructionFormat::S));
    assert_eq!(Instruction(0x63).format(), Ok(InstructionFormat::B));
    assert_eq!(Instruction(0x6f).format(), Ok(InstructionFormat::J));
    assert_eq!(Instruction(0x67).format(), Ok(InstructionFormat::I));
    assert_eq!(Instruction(0x17).format(), Ok(InstructionFormat::U));
    assert_eq!(Instruction(0x37).format(), Ok(InstructionFormat::U));
    assert_eq!(Instruction(0x73).format(), Ok(InstructionFormat::I));
    assert_eq!(Instruction(0x7f).format(), Err(Error::UnsupportedOpcode(0x7f)));
    assert_eq!(Instruction(0x7f).imm(), Err(Error::UnsupportedOpcode(0x7f)));
}

fn round_trip(f: InstructionFormat, v: i32) -> i32 {
    let mut w = Instruction(0);
    w.set_imm_by_format(f, v);
    w.imm_by_format(f)
}

#[test]
fn immediate_round_trip_per_format() {
    for v in [-2048, -1366, -1, 0, 1, 1365, 2047] {
        assert_eq!(round_trip(I, v), v);
        assert_eq!(round_trip(S, v), v);
    }
    for v in [-4096, -2, 0, 2, 2046, 4094] {
        assert_eq!(round_trip(B, v), v);
    }
    for v in [-0x100000, -2, 0, 2, 0x7fffe, 0xffffe] {
        assert_eq!(round_trip(J, v), v);
    }
    assert_eq!(round_trip(U, 0x12345678), 0x12345000);
    assert_eq!(round_trip(U, -1), -4096);
}

#[test]
fn branch_and_jump_layouts_are_bit_exact() {
    // beq x0, x0, -4 and jal x0, 8 as a standard assembler encodes them
    let mut b = Instruction(0x63);
    b.set_imm_by_format(InstructionFormat::B, -4);
    assert_eq!(b.0, 0xfe000ee3);
    let mut j = Instruction(0x6f);
    j.set_imm_by_format(InstructionFormat::J, 8);
    assert_eq!(j.0, 0x0080006f);
    assert_eq!(Instruction(0xfe000ee3).imm(), Ok(-4));
    assert_eq!(Instruction(0x0080006f).imm(), Ok(8));
}

#[test]
fn r_format_has_no_immediate() {
    assert_eq!(Instruction(0xffff_ffb3).imm_by_format(InstructionFormat::R), 0);
}

#[test]
fn from_bytes_is_little_endian() {
    assert_eq!(Instruction::from_bytes([0x93, 0x00, 0xa0, 0x00]).0, 0x00a00093);
    assert_eq!(Instruction::from_bytes([0x78, 0x56, 0x34, 0x12]).0, 0x12345678);
}

#[test]
fn debug_text_shows_bit_groups() {
    assert_eq!(
        Instruction(0x00a00093).debug_text(),
        "Instruction(0b0000_0000_1010_0000_0000_0000_1001_0011)"
    );
    assert_eq!(
        Instruction(0xffff_ffff).debug_text(),
        "Instruction(0b1111_1111_1111_1111_1111_1111_1111_1111)"
    );
}
