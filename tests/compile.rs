use risclang::compile::{compile, expand_pseudo, gen_code, process_labels, split_large_imm};
use risclang::def::Mnemonic;
use risclang::parse::{Imm, Inst};
use risclang::Error;

#[test]
fn test_imm_split() {
    let cases = &[
        0,
        1,
        0b100000000000,
        0b100000000001,
        0b111111111110,
        0b111111111111,
        0b1000000000000,
        0b1000000000001,
        0b1111111111110,
        0b1111111111111,
        -1,
        -2,
        0b11111111_11111111_11110000_00000000u32 as i32,
        0b11111111_11111111_11110000_00000001u32 as i32,
        0b11111111_11111111_11111000_00000000u32 as i32,
        0b11111111_11111111_11111000_00000001u32 as i32,
    ];
    for &case in cases {
        let (h, l) = split_large_imm(case);
        println!("{:0b}, {:0b}", h, l);
        let r = (h << 12).checked_add((l << 20) >> 20).unwrap();
        assert_eq!(case, r);
    }
}

#[test]
fn split_values() {
    assert_eq!(split_large_imm(2500), (-1048575, 2500));
    assert_eq!(split_large_imm(0x12345678), (0x12345, 0x678));
    assert_eq!(split_large_imm(-10000), (-1048578, 2288));
    assert_eq!(split_large_imm(i32::MIN), (-0x80000, 0));
    assert_eq!(split_large_imm(i32::MAX), (0x7ffff - 0xfffff, 0xfff));
}

fn inst(name: Mnemonic, rd: Option<u32>, rs1: Option<u32>, rs2: Option<u32>, imm: Option<Imm>) -> Inst {
    Inst { name, rd, rs1, rs2, imm }
}

#[test]
fn expand_small_and_large_li() {
    let small = expand_pseudo(&inst(Mnemonic::Li, Some(1), None, None, Some(Imm::Value(3)))).unwrap();
    assert_eq!(small, vec![inst(Mnemonic::Addi, Some(1), Some(0), None, Some(Imm::Value(3)))]);
    let large = expand_pseudo(&inst(Mnemonic::Li, Some(2), None, None, Some(Imm::Value(2500)))).unwrap();
    assert_eq!(
        large,
        vec![
            inst(Mnemonic::Lui, Some(2), None, None, Some(Imm::Value(-1048575))),
            inst(Mnemonic::Addi, Some(2), Some(2), None, Some(Imm::Value(2500))),
        ]
    );
    assert_eq!(
        expand_pseudo(&inst(Mnemonic::Li, Some(2), None, None, None)),
        Err(Error::MissingOperand("li".to_string()))
    );
}

#[test]
fn expand_simple_pseudos() {
    let l = Some(Imm::Label("end".to_string()));
    assert_eq!(
        expand_pseudo(&inst(Mnemonic::Beqz, None, Some(5), None, l.clone())).unwrap(),
        vec![inst(Mnemonic::Beq, None, Some(5), Some(0), l.clone())]
    );
    assert_eq!(
        expand_pseudo(&inst(Mnemonic::J, None, None, None, l.clone())).unwrap(),
        vec![inst(Mnemonic::Jal, Some(0), None, None, l.clone())]
    );
    assert_eq!(
        expand_pseudo(&inst(Mnemonic::Ret, None, None, None, None)).unwrap(),
        vec![inst(Mnemonic::Jalr, Some(0), Some(1), None, Some(Imm::Value(0)))]
    );
    assert_eq!(
        expand_pseudo(&inst(Mnemonic::Neg, Some(3), Some(4), None, None)).unwrap(),
        vec![inst(Mnemonic::Sub, Some(3), Some(0), Some(4), None)]
    );
    assert_eq!(
        expand_pseudo(&inst(Mnemonic::Not, Some(3), Some(4), None, None)).unwrap(),
        vec![inst(Mnemonic::Xori, Some(3), Some(4), None, Some(Imm::Value(-1)))]
    );
    let add = inst(Mnemonic::Add, Some(1), Some(2), Some(3), None);
    assert_eq!(expand_pseudo(&add).unwrap(), vec![add.clone()]);
}

#[test]
fn labels_become_byte_offsets() {
    let mut prog = vec![
        inst(Mnemonic::Addi, Some(1), Some(0), None, Some(Imm::Value(1))),
        inst(Mnemonic::Beq, None, Some(0), Some(0), Some(Imm::Label("top".to_string()))),
        inst(Mnemonic::Jal, Some(0), None, None, Some(Imm::Label("end".to_string()))),
    ];
    let labels = vec![("top".to_string(), 0), ("end".to_string(), 5)];
    process_labels(&mut prog, &labels).unwrap();
    assert_eq!(prog[1].imm, Some(Imm::Value(-4)));
    assert_eq!(prog[2].imm, Some(Imm::Value(12)));
}

#[test]
fn unresolved_label_is_reported() {
    let prog = vec![inst(Mnemonic::Jal, Some(0), None, None, Some(Imm::Label("nowhere".to_string())))];
    assert_eq!(compile(prog, &vec![]), Err(Error::UnresolvedLabel("nowhere".to_string())));
}

#[test]
fn gen_code_encodes_standard_words() {
    // addi x1, x0, 10
    let w = gen_code(&inst(Mnemonic::Addi, Some(1), Some(0), None, Some(Imm::Value(10)))).unwrap();
    assert_eq!(w.0, 0x00a00093);
    // sub x3, x1, x2
    let w = gen_code(&inst(Mnemonic::Sub, Some(3), Some(1), Some(2), None)).unwrap();
    assert_eq!(w.0, 0x402081b3);
    // sw x1, 8(x2)
    let w = gen_code(&inst(Mnemonic::Sw, None, Some(2), Some(1), Some(Imm::Value(8)))).unwrap();
    assert_eq!(w.0, 0x00112423);
    // lui x5, 0x12345
    let w = gen_code(&inst(Mnemonic::Lui, Some(5), None, None, Some(Imm::Value(0x12345)))).unwrap();
    assert_eq!(w.0, 0x123452b7);
    // srai x1, x1, 3
    let w = gen_code(&inst(Mnemonic::Srai, Some(1), Some(1), None, Some(Imm::Value(3)))).unwrap();
    assert_eq!(w.0, 0x4030d093);
}

#[test]
fn gen_code_rejects_bad_input() {
    assert_eq!(
        gen_code(&inst(Mnemonic::Add, Some(32), Some(0), Some(0), None)),
        Err(Error::RegisterOutOfRange(32))
    );
    assert_eq!(
        gen_code(&inst(Mnemonic::Li, Some(1), None, None, Some(Imm::Value(1)))),
        Err(Error::UnknownMnemonic("li".to_string()))
    );
    assert_eq!(
        gen_code(&inst(Mnemonic::Jal, Some(0), None, None, Some(Imm::Label("x".to_string())))),
        Err(Error::UnresolvedLabel("x".to_string()))
    );
}

#[test]
fn immediates_that_do_not_fit_are_rejected() {
    assert_eq!(
        gen_code(&inst(Mnemonic::Addi, Some(1), Some(0), None, Some(Imm::Value(5000)))),
        Err(Error::ImmediateOutOfRange(5000))
    );
    assert_eq!(
        gen_code(&inst(Mnemonic::Slli, Some(1), Some(1), None, Some(Imm::Value(32)))),
        Err(Error::ImmediateOutOfRange(32))
    );
    assert_eq!(
        gen_code(&inst(Mnemonic::Beq, None, Some(0), Some(0), Some(Imm::Value(4096)))),
        Err(Error::ImmediateOutOfRange(4096))
    );
    assert_eq!(
        gen_code(&inst(Mnemonic::Jal, Some(0), None, None, Some(Imm::Value(3)))),
        Err(Error::ImmediateOutOfRange(3))
    );
    // the unsigned lower part that the large-immediate split produces is accepted
    assert!(gen_code(&inst(Mnemonic::Addi, Some(1), Some(1), None, Some(Imm::Value(4095)))).is_ok());
}

#[test]
fn label_too_far_away_is_reported() {
    let mut prog = vec![inst(Mnemonic::Jal, Some(0), None, None, Some(Imm::Label("far".to_string())))];
    let labels = vec![("far".to_string(), u32::MAX)];
    assert_eq!(process_labels(&mut prog, &labels), Err(Error::OffsetOutOfRange("far".to_string())));
}

#[test]
fn last_label_definition_wins() {
    let mut prog = vec![inst(Mnemonic::Jal, Some(0), None, None, Some(Imm::Label("a".to_string())))];
    let labels = vec![("a".to_string(), 1), ("a".to_string(), 3)];
    process_labels(&mut prog, &labels).unwrap();
    assert_eq!(prog[0].imm, Some(Imm::Value(12)));
}
