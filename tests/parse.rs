use risclang::def::Mnemonic;
use risclang::parse::{parse, parse_imm, parse_line, parse_register, Imm, Inst};
use risclang::Error;

fn chars(s: &str) -> Vec<char> {
    s.chars().collect()
}

#[test]
fn register_names() {
    assert_eq!(parse_register(&chars("zero")), Ok(0));
    assert_eq!(parse_register(&chars("ra")), Ok(1));
    assert_eq!(parse_register(&chars("sp")), Ok(2));
    assert_eq!(parse_register(&chars("tp")), Ok(4));
    assert_eq!(parse_register(&chars("x0")), Ok(0));
    assert_eq!(parse_register(&chars("x31")), Ok(31));
    assert_eq!(parse_register(&chars("t0")), Ok(5));
    assert_eq!(parse_register(&chars("t2")), Ok(7));
    assert_eq!(parse_register(&chars("t3")), Ok(28));
    assert_eq!(parse_register(&chars("t6")), Ok(31));
    assert_eq!(parse_register(&chars("s0")), Ok(8));
    assert_eq!(parse_register(&chars("s1")), Ok(9));
    assert_eq!(parse_register(&chars("s2")), Ok(18));
    assert_eq!(parse_register(&chars("s11")), Ok(27));
    assert_eq!(parse_register(&chars("a0")), Ok(10));
    assert_eq!(parse_register(&chars("a7")), Ok(17));
}

#[test]
fn invalid_registers() {
    for bad in ["x32", "t7", "s12", "a8", "q1", "x", "fp", "t01", ""] {
        assert_eq!(
            parse_register(&chars(bad)),
            Err(Error::InvalidRegister(bad.to_string())),
            "{bad}"
        );
    }
}

#[test]
fn immediates() {
    assert_eq!(parse_imm(&chars("42")), Ok(Imm::Value(42)));
    assert_eq!(parse_imm(&chars("-10000")), Ok(Imm::Value(-10000)));
    assert_eq!(parse_imm(&chars("+7")), Ok(Imm::Value(7)));
    assert_eq!(parse_imm(&chars("2147483647")), Ok(Imm::Value(i32::MAX)));
    assert_eq!(parse_imm(&chars("-2147483648")), Ok(Imm::Value(i32::MIN)));
    assert_eq!(parse_imm(&chars("loop")), Ok(Imm::Label("loop".to_string())));
    for bad in ["2147483648", "-2147483649", "12a", "-", "", "99999999999999999999"] {
        assert_eq!(parse_imm(&chars(bad)), Err(Error::InvalidImmediate(bad.to_string())), "{bad}");
    }
}

#[test]
fn parse_line_forms() {
    assert_eq!(
        parse_line("ADD t0, t1, t2"),
        Ok(Inst { name: Mnemonic::Add, rd: Some(5), rs1: Some(6), rs2: Some(7), imm: None })
    );
    assert_eq!(
        parse_line("lw ra 0(sp)"),
        Ok(Inst { name: Mnemonic::Lw, rd: Some(1), rs1: Some(2), rs2: None, imm: Some(Imm::Value(0)) })
    );
    assert_eq!(
        parse_line("sw t0, -8(s0)"),
        Ok(Inst { name: Mnemonic::Sw, rd: None, rs1: Some(8), rs2: Some(5), imm: Some(Imm::Value(-8)) })
    );
    assert_eq!(
        parse_line("jal ex3"),
        Ok(Inst {
            name: Mnemonic::Jal,
            rd: Some(1),
            rs1: None,
            rs2: None,
            imm: Some(Imm::Label("ex3".to_string()))
        })
    );
    assert_eq!(
        parse_line("ecall"),
        Ok(Inst { name: Mnemonic::Ecall, rd: None, rs1: None, rs2: None, imm: Some(Imm::Value(1)) })
    );
    assert_eq!(
        parse_line("ret"),
        Ok(Inst { name: Mnemonic::Ret, rd: None, rs1: None, rs2: None, imm: None })
    );
}

#[test]
fn parse_line_errors() {
    assert_eq!(parse_line("frob x1 x2"), Err(Error::UnknownMnemonic("frob".to_string())));
    assert_eq!(parse_line("add x1 x2"), Err(Error::MissingOperand("add".to_string())));
    assert_eq!(parse_line("add x1 x2 y9"), Err(Error::InvalidRegister("y9".to_string())));
    assert_eq!(parse_line("addi x1 x2 1x"), Err(Error::InvalidImmediate("1x".to_string())));
    assert_eq!(parse_line("lw x1 8"), Err(Error::MissingOperand("lw".to_string())));
}

#[test]
fn parse_program_counts_expanded_instructions() {
    let (insts, texts, labels) = parse("  li x1 2500 # big\nhere:\n\tj here\n\n# only a comment\n").unwrap();
    assert_eq!(insts.len(), 3);
    assert_eq!(insts[0].name, Mnemonic::Lui);
    assert_eq!(insts[1].name, Mnemonic::Addi);
    assert_eq!(insts[2].name, Mnemonic::Jal);
    assert_eq!(texts, vec!["li x1 2500 # big", "li x1 2500 # big", "j here"]);
    assert_eq!(labels, vec![("here".to_string(), 2)]);
}

#[test]
fn parse_reports_first_bad_line() {
    assert_eq!(parse("addi x1 x0 1\nbogus\nalso bogus"), Err(Error::UnknownMnemonic("bogus".to_string())));
}
