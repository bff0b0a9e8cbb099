use risclang::instruction::Instruction;
use risclang::machine::{compile, Machine};
use risclang::Error;

#[test]
fn test_machine() {
    let mut machine = Machine::new(1024);
    let test = "
	addi x1 x0 10
	";
    machine.run(&compile(test).unwrap()).unwrap();
    assert!(machine.regs[1] == 10);
}

#[test]
fn test_machine_fib() {
    let mut machine = Machine::new(1024);
    let test = "
	addi t0 x0 0
	addi t1 x0 1
	addi t2 x0 6
	loop:
	add t3 t0 t1
	add t0 x0 t1
	add t1 x0 t3
	addi t2 t2 -1
	blt x0 t2 loop
	";
    machine.run(&compile(test).unwrap()).unwrap();
    assert!(machine.regs[5] == 8);
}

#[test]
fn test_machine_fib2() {
    let mut machine = Machine::new(1024);
    let test = "
	addi t0 x0 0
	addi t1 x0 1
	addi t5 x0 10
	start:
	add t2 t0 t1
	addi t0 t1 0
	addi t1 t2 0
	addi t5 t5 -1
	bge t5 x0 start
	addi t3 x0 -1
	";
    let code = compile(test).unwrap();
    machine.run(&code).unwrap();
    assert!(machine.regs[5] == 89);
}

#[test]
fn test_pseudo_insts() {
    let mut machine = Machine::new(1024);
    let test = "
	li x1 3
	li x2 2500
	li x3 -10000
	";
    machine.run(&compile(test).unwrap()).unwrap();
    assert_eq!(machine.regs[1], 3);
    assert_eq!(machine.regs[2], 2500);
    assert_eq!(machine.regs[3], -10000);
}

#[test]
fn kinda_complex() {
    let mut machine = Machine::new(1048576);
    let test = "
main:
    # load the value of n into a0
    li a0 2

    # load the value of exp into a1
    li a1 10

    # call ex3
    jal ex3

    # prints the output of ex3
    mv a1 a0
    li a0 1
    ecall # Print Result

    # exits the program
    li a0 17
    li a1 0
    ecall

ex3:
    # this function is a recursive pow function
    # a0 contains the base
    # a1 contains the power to raise to
    # the return value should be the result of a0^a1
    #     where ^ is the exponent operator, not XOR
    addi sp sp -4
    sw ra 0(sp)

    # return 1 if a0 == 0
    beq a1 x0 ex3_zero_case

    # otherwise, return ex3(a0, a1-1) * a0
    mv t0 a0      # save a0 in t0
    addi a1 a1 -1 # decrement a1
    
    addi sp sp -4
    sw t0 0(sp)
    jal ex3       # call ex3(a0, a1-1)
    lw t0 0(sp)
    addi sp sp 4

    mul a0 a0 t0  # multiply ex3(a0, a1-1) by t0
                  # (which contains the value of a0)

    j ex3_end

ex3_zero_case:
    li a0 1

ex3_end:
    lw ra 0(sp)
    addi sp sp 4
    ret
	";
    let code = compile(test).unwrap();
    // the first environment call prints the result, the second exits
    assert_eq!(machine.run(&code), Ok(Some((1, 1024))));
    assert_eq!(machine.run(&code), Ok(Some((17, 0))));
    assert_eq!(machine.regs[2], 1048576);
}

#[test]
fn power_routine_leaves_result_in_a0() {
    let mut machine = Machine::new(4096);
    let code = compile(
        "li a0 2\nli a1 10\njal pow\nj done\npow:\naddi sp sp -8\nsw ra 4(sp)\nsw a0 0(sp)\n\
         beqz a1 base\naddi a1 a1 -1\njal pow\nlw t0 0(sp)\nmul a0 a0 t0\nj out\n\
         base:\nli a0 1\nout:\nlw ra 4(sp)\naddi sp sp 8\nret\ndone:\nnop",
    )
    .unwrap();
    assert_eq!(machine.run(&code), Ok(None));
    assert_eq!(machine.regs[10], 1024);
    assert_eq!(machine.regs[2], 4096);
}

#[test]
fn register_zero_stays_zero() {
    let mut machine = Machine::new(64);
    let code = compile("addi x0 x0 5\nlui zero 1\njal x0 4\nadd x1 x0 x0").unwrap();
    machine.run(&code).unwrap();
    assert_eq!(machine.regs[0], 0);
    assert_eq!(machine.regs[1], 0);
    // a word writing x0 executed directly
    machine.regs[0] = 0;
    machine.exec(Instruction(0x00500013)).unwrap();
    assert_eq!(machine.regs[0], 0);
}

#[test]
fn out_of_bounds_load_fails() {
    let mut machine = Machine::new(1024);
    let code = compile("li x1 1022\nlw x2 0(x1)").unwrap();
    assert_eq!(machine.run(&code), Err(Error::OutOfBounds(1022)));
    let mut machine = Machine::new(1024);
    let code = compile("lw x2 2000(x0)").unwrap();
    assert_eq!(machine.run(&code), Err(Error::OutOfBounds(2000)));
    let mut machine = Machine::new(1024);
    let code = compile("addi x1 x0 -4\nsb x1 0(x1)").unwrap();
    assert_eq!(machine.run(&code), Err(Error::OutOfBounds(0xffff_fffc)));
}

#[test]
fn loads_and_stores_are_little_endian() {
    let mut machine = Machine::new(64);
    let code = compile(
        "li x1 -2\nsw x1 8(x0)\nlb x2 8(x0)\nlbu x3 8(x0)\nlh x4 8(x0)\nlhu x5 8(x0)\nlw x6 8(x0)\n\
         li x7 0x0\n",
    );
    assert_eq!(code, Err(Error::InvalidImmediate("0x0".to_string())));
    let code = compile("li x1 -2\nsw x1 8(x0)\nlb x2 8(x0)\nlbu x3 8(x0)\nlh x4 8(x0)\nlhu x5 8(x0)\nlw x6 8(x0)\nsh x1 20(x0)").unwrap();
    machine.run(&code).unwrap();
    assert_eq!(machine.mem[8..12], [0xfe, 0xff, 0xff, 0xff]);
    assert_eq!(machine.regs[2], -2);
    assert_eq!(machine.regs[3], 0xfe);
    assert_eq!(machine.regs[4], -2);
    assert_eq!(machine.regs[5], 0xfffe);
    assert_eq!(machine.regs[6], -2);
    assert_eq!(machine.mem[20..24], [0xfe, 0xff, 0, 0]);
}

#[test]
fn alu_semantics() {
    let mut machine = Machine::new(64);
    let code = compile(
        "li x1 -8\nli x2 3\nsub x3 x1 x2\nsll x4 x2 x2\nsrl x5 x1 x2\nsra x6 x1 x2\n\
         slt x7 x1 x2\nsltu x8 x1 x2\nmul x9 x1 x2\nxori x10 x2 -1\nsrai x11 x1 1\nandi x12 x1 12",
    )
    .unwrap();
    machine.run(&code).unwrap();
    assert_eq!(machine.regs[3], -11);
    assert_eq!(machine.regs[4], 24);
    assert_eq!(machine.regs[5], 0x1fff_ffff);
    assert_eq!(machine.regs[6], -1);
    assert_eq!(machine.regs[7], 1);
    assert_eq!(machine.regs[8], 0);
    assert_eq!(machine.regs[9], -24);
    assert_eq!(machine.regs[10], -4);
    assert_eq!(machine.regs[11], -4);
    assert_eq!(machine.regs[12], 8);
}

#[test]
fn la_loads_label_address() {
    let mut machine = Machine::new(64);
    let code = compile("nop\nla x5 target\nnop\ntarget:\nnop").unwrap();
    machine.run(&code).unwrap();
    assert_eq!(machine.regs[5], 16);
}

#[test]
fn unknown_mnemonic_and_unresolved_label_are_distinct() {
    assert_eq!(compile("addi x1 x0 1\nfrob x1"), Err(Error::UnknownMnemonic("frob".to_string())));
    assert_eq!(compile("j nowhere"), Err(Error::UnresolvedLabel("nowhere".to_string())));
}

#[test]
fn invalid_words_fail_without_changing_state() {
    let mut machine = Machine::new(16);
    assert_eq!(machine.exec(Instruction(0x7f)), Err(Error::UnsupportedOpcode(0x7f)));
    assert_eq!(machine.exec(Instruction(0x4000_7033)), Err(Error::InvalidInstruction(0x4000_7033)));
    assert_eq!(machine.pc, 0);
    // ebreak is a no-op that advances the program counter
    assert_eq!(machine.exec(Instruction(0x0000_0073)), Ok(None));
    assert_eq!(machine.pc, 4);
}

#[test]
fn new_machine_state_and_views() {
    let machine = Machine::new(32);
    assert_eq!(machine.regs[2], 32);
    assert_eq!(machine.mem, vec![0u8; 32]);
    assert_eq!(machine.get_registers().len(), 32);
    assert_eq!(machine.get_memory_view(30, 2), Some(vec![0, 0]));
    assert_eq!(machine.get_memory_view(31, 2), None);
    assert_eq!(machine.get_instruction_index(), Some(0));
}

#[test]
fn partial_word_at_end_of_code_is_out_of_bounds() {
    let mut machine = Machine::new(16);
    assert_eq!(machine.run(&[0x13, 0, 0, 0, 0x13, 0]), Err(Error::OutOfBounds(4)));
}
