use amds_syntax::ail::{get_instruction_bytes, Instruction};

#[test]
fn instructions_without_operand_are_an_opcode_and_zeros() {
    let plain = vec![
        (Instruction::NOP, 0u8),
        (Instruction::POP, 7),
        (Instruction::ADD, 8),
        (Instruction::SUB, 9),
        (Instruction::MUL, 0xa),
        (Instruction::DIV, 0xb),
        (Instruction::MOD, 0xc),
        (Instruction::TOS, 0x11),
        (Instruction::TOD, 0x12),
        (Instruction::RET, 0x14),
        (Instruction::CLONE, 0x19),
    ];
    for (instruction, opcode) in plain {
        let mut expected = vec![0u8; 12];
        expected[0] = opcode;
        assert_eq!(get_instruction_bytes(instruction), expected, "{:?}", instruction);
    }
}

#[test]
fn pushes_end_in_their_operand_big_end_first() {
    assert_eq!(
        get_instruction_bytes(Instruction::PUSH8(0xab, true)),
        vec![1, 0, 1, 0, 0, 0, 0, 0, 0, 0, 0, 0xab]
    );
    assert_eq!(
        get_instruction_bytes(Instruction::PUSH16(0x1234, false)),
        vec![2, 0, 0, 0, 0, 0, 0, 0, 0, 0, 0x12, 0x34]
    );
    assert_eq!(
        get_instruction_bytes(Instruction::PUSH32(0x1234_5678, true)),
        vec![3, 0, 1, 0, 0, 0, 0, 0, 0x12, 0x34, 0x56, 0x78]
    );
    assert_eq!(
        get_instruction_bytes(Instruction::PUSH64(0x0102_0304_0506_0708, false)),
        vec![4, 0, 0, 0, 1, 2, 3, 4, 5, 6, 7, 8]
    );
    assert_eq!(
        get_instruction_bytes(Instruction::PUSH64(u64::MAX, true)),
        vec![4, 0, 1, 0, 255, 255, 255, 255, 255, 255, 255, 255]
    );
}

#[test]
fn floating_point_pushes_carry_the_bit_pattern() {
    assert_eq!(
        get_instruction_bytes(Instruction::PUSHS(1.5f32.to_bits())),
        vec![5, 0, 0, 0, 0, 0, 0, 0, 0x3f, 0xc0, 0, 0]
    );
    assert_eq!(
        get_instruction_bytes(Instruction::PUSHD((-2.0f64).to_bits())),
        vec![6, 0, 0, 0, 0xc0, 0, 0, 0, 0, 0, 0, 0]
    );
    let expected: Vec<u8> =
        [6u8, 0, 0, 0].iter().copied().chain(0.1f64.to_be_bytes().iter().copied()).collect();
    assert_eq!(get_instruction_bytes(Instruction::PUSHD(0.1f64.to_bits())), expected);
}

#[test]
fn conversions_carry_their_flag() {
    let conversions = vec![
        (Instruction::TO8(true), 0xdu8, 1u8),
        (Instruction::TO8(false), 0xd, 0),
        (Instruction::TO16(true), 0xe, 1),
        (Instruction::TO32(false), 0xf, 0),
        (Instruction::TO64(true), 0x10, 1),
    ];
    for (instruction, opcode, flag) in conversions {
        let mut expected = vec![0u8; 12];
        expected[0] = opcode;
        expected[2] = flag;
        assert_eq!(get_instruction_bytes(instruction), expected, "{:?}", instruction);
    }
}

#[test]
fn call_and_free_carry_their_address() {
    assert_eq!(
        get_instruction_bytes(Instruction::CALL(7, 0xdead_beef)),
        vec![0x13, 0, 7, 0, 0, 0, 0, 0, 0xde, 0xad, 0xbe, 0xef]
    );
    assert_eq!(
        get_instruction_bytes(Instruction::FREEMEM(0x0100)),
        vec![0x18, 0, 0, 0, 0, 0, 0, 0, 0, 0, 1, 0]
    );
}

#[test]
fn the_other_instructions_encode_to_nothing() {
    let open = vec![
        Instruction::MALLOC(8),
        Instruction::WRITE(1, 2),
        Instruction::READ(1, 2, 3),
        Instruction::SWRITE(4),
        Instruction::MEMCPY(1, 2, 3, 4, 5),
        Instruction::EQ,
        Instruction::GT,
        Instruction::LT,
        Instruction::GE,
        Instruction::LE,
        Instruction::NE,
        Instruction::JIT(1),
        Instruction::JMP(2),
        Instruction::RJP(-3),
    ];
    for instruction in open {
        assert!(get_instruction_bytes(instruction).is_empty(), "{:?}", instruction);
    }
}
