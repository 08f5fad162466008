//! The instruction set of the stack machine and its encoding.
//!
//! An encoded instruction takes twelve bytes: the opcode, a zero byte, a flag
//! byte, zero bytes, and the operand at the end, big end first. A floating-
//! point operand is carried as its bit pattern.

use vstd::prelude::*;

verus! {

/// What the stack machine can be told to do.
#[derive(Debug, PartialEq, Eq, Clone, Copy)]
pub enum Instruction {
    NOP,
    /// An operand and whether it is signed.
    PUSH8(u8, bool),
    PUSH16(u16, bool),
    PUSH32(u32, bool),
    PUSH64(u64, bool),
    /// The bit pattern of a single-precision number.
    PUSHS(u32),
    /// The bit pattern of a double-precision number.
    PUSHD(u64),
    POP,
    ADD,
    SUB,
    MUL,
    DIV,
    MOD,
    /// A conversion and whether its result is signed.
    TO8(bool),
    TO16(bool),
    TO32(bool),
    TO64(bool),
    TOS,
    TOD,
    /// The bank and the address of the procedure.
    CALL(u8, u64),
    RET,
    /// The size in bytes.
    MALLOC(u64),
    /// An address and an offset.
    WRITE(u64, u64),
    /// An address, an offset and a size of at most eight bytes.
    READ(u64, u64, u8),
    FREEMEM(u64),
    CLONE,
    /// The offset from the address on the stack.
    SWRITE(u64),
    /// An address and an offset to copy to, an address and an offset to
    /// copy from, and a size.
    MEMCPY(u64, u64, u64, u64, u64),
    EQ,
    GT,
    LT,
    GE,
    LE,
    NE,
    /// The address to jump to if the top of the stack is true.
    JIT(u64),
    JMP(u64),
    /// The distance to jump.
    RJP(i64),
}

/// The bytes of `value`, big end first, in `width` bytes.
pub open spec fn big_endian(value: nat, width: nat) -> Seq<u8>
    decreases width,
{
    if width == 0 {
        Seq::empty()
    } else {
        big_endian(value / 256, (width - 1) as nat).push((value % 256) as u8)
    }
}

/// The flag byte of a boolean.
pub open spec fn flag(set: bool) -> u8 {
    if set {
        1
    } else {
        0
    }
}

/// Twelve bytes: the opcode, a zero byte, the flag byte, zero bytes, and
/// the operand, of at most nine bytes, at the end.
pub open spec fn frame(opcode: u8, flag: u8, operand: Seq<u8>) -> Seq<u8> {
    seq![opcode, 0u8, flag] + Seq::new((9 - operand.len()) as nat, |i: int| 0u8) + operand
}

/// The encoding of an instruction. The instructions for which no encoding is
/// laid down yet encode to nothing.
pub open spec fn encoding(instruction: Instruction) -> Seq<u8> {
    match instruction {
        Instruction::NOP => frame(0, 0, Seq::empty()),
        Instruction::PUSH8(value, signed) => frame(1, flag(signed), big_endian(value as nat, 1)),
        Instruction::PUSH16(value, signed) => frame(2, flag(signed), big_endian(value as nat, 2)),
        Instruction::PUSH32(value, signed) => frame(3, flag(signed), big_endian(value as nat, 4)),
        Instruction::PUSH64(value, signed) => frame(4, flag(signed), big_endian(value as nat, 8)),
        Instruction::PUSHS(bits) => frame(5, 0, big_endian(bits as nat, 4)),
        Instruction::PUSHD(bits) => frame(6, 0, big_endian(bits as nat, 8)),
        Instruction::POP => frame(7, 0, Seq::empty()),
        Instruction::ADD => frame(8, 0, Seq::empty()),
        Instruction::SUB => frame(9, 0, Seq::empty()),
        Instruction::MUL => frame(0xa, 0, Seq::empty()),
        Instruction::DIV => frame(0xb, 0, Seq::empty()),
        Instruction::MOD => frame(0xc, 0, Seq::empty()),
        Instruction::TO8(signed) => frame(0xd, flag(signed), Seq::empty()),
        Instruction::TO16(signed) => frame(0xe, flag(signed), Seq::empty()),
        Instruction::TO32(signed) => frame(0xf, flag(signed), Seq::empty()),
        Instruction::TO64(signed) => frame(0x10, flag(signed), Seq::empty()),
        Instruction::TOS => frame(0x11, 0, Seq::empty()),
        Instruction::TOD => frame(0x12, 0, Seq::empty()),
        Instruction::CALL(bank, address) => frame(0x13, bank, big_endian(address as nat, 8)),
        Instruction::RET => frame(0x14, 0, Seq::empty()),
        Instruction::FREEMEM(address) => frame(0x18, 0, big_endian(address as nat, 8)),
        Instruction::CLONE => frame(0x19, 0, Seq::empty()),
        _ => Seq::empty(),
    }
}

/// An instruction encodes to twelve bytes or to nothing.
pub proof fn lemma_encoding_length(instruction: Instruction)
    ensures
        encoding(instruction).len() == 12 || encoding(instruction).len() == 0,
{
    reveal_with_fuel(big_endian, 9);
}

/// Appends `count` zero bytes.
fn pad(buffer: &mut Vec<u8>, count: usize)
    ensures
        final(buffer)@ == old(buffer)@ + Seq::new(count as nat, |i: int| 0u8),
{
    let mut i: usize = 0;
    while i < count
        invariant
            i <= count,
            buffer@ == old(buffer)@ + Seq::new(i as nat, |k: int| 0u8),
        decreases count - i,
    {
        buffer.push(0);
        i += 1;
        assert(buffer@ =~= old(buffer)@ + Seq::new(i as nat, |k: int| 0u8));
    }
}

/// Appends the two bytes of `value`, big end first.
fn push16(buffer: &mut Vec<u8>, value: u16)
    ensures
        final(buffer)@ == old(buffer)@ + big_endian(value as nat, 2),
{
    assert(value >> 8 == value / 256) by (bit_vector);
    assert(value & 0xff == value % 256) by (bit_vector);
    assert((value >> 8) < 256) by (bit_vector);
    buffer.push((value >> 8) as u8);
    buffer.push((value & 0xff) as u8);
    proof {
        reveal_with_fuel(big_endian, 3);
        assert(buffer@ =~= old(buffer)@ + big_endian(value as nat, 2));
    }
}

/// Appends the four bytes of `value`, big end first.
fn push32(buffer: &mut Vec<u8>, value: u32)
    ensures
        final(buffer)@ == old(buffer)@ + big_endian(value as nat, 4),
{
    assert(value >> 16 == value / 65536) by (bit_vector);
    assert(value & 0xffff == value % 65536) by (bit_vector);
    assert((value >> 16) < 65536) by (bit_vector);
    let high = (value >> 16) as u16;
    let low = (value & 0xffff) as u16;
    push16(buffer, high);
    push16(buffer, low);
    proof {
        lemma_low_two_bytes(value as nat, 4);
        assert(buffer@ =~= old(buffer)@ + big_endian(value as nat, 4));
    }
}

/// Appends the eight bytes of `value`, big end first.
fn push64(buffer: &mut Vec<u8>, value: u64)
    ensures
        final(buffer)@ == old(buffer)@ + big_endian(value as nat, 8),
{
    assert(value >> 32 == value / 0x1_0000_0000) by (bit_vector);
    assert(value & 0xffff_ffff == value % 0x1_0000_0000) by (bit_vector);
    assert((value >> 32) < 0x1_0000_0000) by (bit_vector);
    let high = (value >> 32) as u32;
    let low = (value & 0xffff_ffff) as u32;
    push32(buffer, high);
    push32(buffer, low);
    proof {
        lemma_halves(value);
        assert(buffer@ =~= old(buffer)@ + big_endian(value as nat, 8));
    }
}

/// The bytes of a value are the bytes of all but its low two bytes, and
/// then those two.
pub proof fn lemma_low_two_bytes(value: nat, width: nat)
    requires
        width >= 2,
    ensures
        big_endian(value, width) == big_endian(value / 65536, (width - 2) as nat) + big_endian(
            value % 65536,
            2,
        ),
{
    reveal_with_fuel(big_endian, 3);
    assert(big_endian(value, width) =~= big_endian(value / 65536, (width - 2) as nat)
        + big_endian(value % 65536, 2));
}

/// The eight bytes of a value are the four bytes of its high half and then
/// the four bytes of its low half.
pub proof fn lemma_halves(value: u64)
    ensures
        big_endian(value as nat, 8) == big_endian((value / 0x1_0000_0000) as nat, 4) + big_endian(
            (value % 0x1_0000_0000) as nat,
            4,
        ),
{
    let high = value / 65536;
    let low = value % 0x1_0000_0000;
    assert(high / 65536 == value / 0x1_0000_0000) by (bit_vector)
        requires
            high == value / 65536,
    ;
    assert(low / 65536 == high % 65536 && low % 65536 == value % 65536) by (bit_vector)
        requires
            high == value / 65536,
            low == value % 0x1_0000_0000,
    ;
    lemma_low_two_bytes(value as nat, 8);
    lemma_low_two_bytes(high as nat, 6);
    lemma_low_two_bytes(low as nat, 4);
    assert(big_endian((high / 65536) as nat, 4) == big_endian(
        (value / 0x1_0000_0000) as nat,
        4,
    ));
    assert(big_endian(value as nat, 8) =~= big_endian((value / 0x1_0000_0000) as nat, 4)
        + big_endian(low as nat, 4));
}

/// The bytes that encode `instruction`.
pub fn get_instruction_bytes(instruction: Instruction) -> (r: Vec<u8>)
    ensures
        r@ == encoding(instruction),
{
    let mut buffer: Vec<u8> = Vec::new();
    match instruction {
        Instruction::NOP => {
            pad(&mut buffer, 12);
        },
        Instruction::PUSH8(value, signed) => {
            buffer.push(1);
            buffer.push(0);
            buffer.push(if signed { 1 } else { 0 });
            pad(&mut buffer, 8);
            buffer.push(value);
            proof {
                reveal_with_fuel(big_endian, 2);
            }
        },
        Instruction::PUSH16(value, signed) => {
            buffer.push(2);
            buffer.push(0);
            buffer.push(if signed { 1 } else { 0 });
            pad(&mut buffer, 7);
            push16(&mut buffer, value);
        },
        Instruction::PUSH32(value, signed) => {
            buffer.push(3);
            buffer.push(0);
            buffer.push(if signed { 1 } else { 0 });
            pad(&mut buffer, 5);
            push32(&mut buffer, value);
        },
        Instruction::PUSH64(value, signed) => {
            buffer.push(4);
            buffer.push(0);
            buffer.push(if signed { 1 } else { 0 });
            pad(&mut buffer, 1);
            push64(&mut buffer, value);
        },
        Instruction::PUSHS(bits) => {
            buffer.push(5);
            pad(&mut buffer, 7);
            push32(&mut buffer, bits);
        },
        Instruction::PUSHD(bits) => {
            buffer.push(6);
            pad(&mut buffer, 3);
            push64(&mut buffer, bits);
        },
        Instruction::POP => {
            buffer.push(7);
            pad(&mut buffer, 11);
        },
        Instruction::ADD => {
            buffer.push(8);
            pad(&mut buffer, 11);
        },
        Instruction::SUB => {
            buffer.push(9);
            pad(&mut buffer, 11);
        },
        Instruction::MUL => {
            buffer.push(0xa);
            pad(&mut buffer, 11);
        },
        Instruction::DIV => {
            buffer.push(0xb);
            pad(&mut buffer, 11);
        },
        Instruction::MOD => {
            buffer.push(0xc);
            pad(&mut buffer, 11);
        },
        Instruction::TO8(signed) => {
            buffer.push(0xd);
            buffer.push(0);
            buffer.push(if signed { 1 } else { 0 });
            pad(&mut buffer, 9);
        },
        Instruction::TO16(signed) => {
            buffer.push(0xe);
            buffer.push(0);
            buffer.push(if signed { 1 } else { 0 });
            pad(&mut buffer, 9);
        },
        Instruction::TO32(signed) => {
            buffer.push(0xf);
            buffer.push(0);
            buffer.push(if signed { 1 } else { 0 });
            pad(&mut buffer, 9);
        },
        Instruction::TO64(signed) => {
            buffer.push(0x10);
            buffer.push(0);
            buffer.push(if signed { 1 } else { 0 });
            pad(&mut buffer, 9);
        },
        Instruction::TOS => {
            buffer.push(0x11);
            pad(&mut buffer, 11);
        },
        Instruction::TOD => {
            buffer.push(0x12);
            pad(&mut buffer, 11);
        },
        Instruction::CALL(bank, address) => {
            buffer.push(0x13);
            buffer.push(0);
            buffer.push(bank);
            pad(&mut buffer, 1);
            push64(&mut buffer, address);
        },
        Instruction::RET => {
            buffer.push(0x14);
            pad(&mut buffer, 11);
        },
        Instruction::FREEMEM(address) => {
            buffer.push(0x18);
            pad(&mut buffer, 3);
            push64(&mut buffer, address);
        },
        Instruction::CLONE => {
            buffer.push(0x19);
            pad(&mut buffer, 11);
        },
        _ => {},
    }
    proof {
        lemma_operand_widths();
        assert(buffer@ =~= encoding(instruction));
    }
    buffer
}

/// `width` bytes hold the bytes of a value.
pub proof fn lemma_big_endian_length(value: nat, width: nat)
    ensures
        big_endian(value, width).len() == width,
    decreases width,
{
    if width > 0 {
        lemma_big_endian_length(value / 256, (width - 1) as nat);
    }
}

/// The operands of the instructions fill one, two, four or eight bytes.
proof fn lemma_operand_widths()
    ensures
        forall|value: nat| #[trigger] big_endian(value, 1).len() == 1,
        forall|value: nat| #[trigger] big_endian(value, 2).len() == 2,
        forall|value: nat| #[trigger] big_endian(value, 4).len() == 4,
        forall|value: nat| #[trigger] big_endian(value, 8).len() == 8,
{
    assert forall|value: nat| #[trigger] big_endian(value, 1).len() == 1 by {
        lemma_big_endian_length(value, 1);
    }
    assert forall|value: nat| #[trigger] big_endian(value, 2).len() == 2 by {
        lemma_big_endian_length(value, 2);
    }
    assert forall|value: nat| #[trigger] big_endian(value, 4).len() == 4 by {
        lemma_big_endian_length(value, 4);
    }
    assert forall|value: nat| #[trigger] big_endian(value, 8).len() == 8 by {
        lemma_big_endian_length(value, 8);
    }
}

} // verus!
