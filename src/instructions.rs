//! The instruction set: a closed family of typed instructions, and the
//! total decoder from 16-bit instruction words.

use vstd::prelude::*;

verus! {

/// A decoded instruction.
#[derive(Debug, Clone, Copy, PartialEq, Eq, Structural)]
pub enum AhoyInstruction {
    /// Set the program counter to a 12-bit address.
    Jump(usize),
    /// Push the program counter and jump to a 12-bit address.
    CallSubroutine(u16),
    /// Load a byte into a register.
    SetRegister(usize, u8),
    /// Add a byte to a register, wrapping modulo 256.
    AddToRegister(usize, u8),
    /// Load a 12-bit address into the index register.
    SetIndex(u16),
    /// Draw a sprite read at the index register.
    Display { x_register: usize, y_register: usize, sprite_height: u8 },
    /// Turn every pixel off.
    ClearScreen,
    /// Return from a subroutine.
    StopSubroutine,
    /// A word outside the implemented instruction set, kept as read.
    UnknownInstruction(u16),
}

/// The top nibble of a word, which selects the instruction family.
pub open spec fn family(word: u16) -> int {
    word as int / 0x1000
}

/// The low twelve bits of a word: an address operand.
pub open spec fn address_field(word: u16) -> int {
    word as int % 0x1000
}

/// Bits 8 to 11 of a word.
pub open spec fn x_field(word: u16) -> int {
    (word as int / 0x100) % 0x10
}

/// Bits 4 to 7 of a word.
pub open spec fn y_field(word: u16) -> int {
    (word as int / 0x10) % 0x10
}

/// Bits 0 to 3 of a word.
pub open spec fn n_field(word: u16) -> int {
    word as int % 0x10
}

/// The low byte of a word.
pub open spec fn byte_field(word: u16) -> int {
    word as int % 0x100
}

/// What a word means as an instruction.
pub open spec fn decode_spec(word: u16) -> AhoyInstruction {
    if word == 0x00E0 {
        AhoyInstruction::ClearScreen
    } else if word == 0x00EE {
        AhoyInstruction::StopSubroutine
    } else if family(word) == 0x1 {
        AhoyInstruction::Jump(address_field(word) as usize)
    } else if family(word) == 0x2 {
        AhoyInstruction::CallSubroutine(address_field(word) as u16)
    } else if family(word) == 0x6 {
        AhoyInstruction::SetRegister(x_field(word) as usize, byte_field(word) as u8)
    } else if family(word) == 0x7 {
        AhoyInstruction::AddToRegister(x_field(word) as usize, byte_field(word) as u8)
    } else if family(word) == 0xA {
        AhoyInstruction::SetIndex(address_field(word) as u16)
    } else if family(word) == 0xD {
        AhoyInstruction::Display {
            x_register: x_field(word) as usize,
            y_register: y_field(word) as usize,
            sprite_height: n_field(word) as u8,
        }
    } else {
        AhoyInstruction::UnknownInstruction(word)
    }
}

/// The fields of a word, as the shifts and masks of the decoder compute them.
proof fn lemma_word_fields(word: u16)
    ensures
        (word >> 12u16) as int == family(word),
        (word & 0x0FFFu16) as int == address_field(word),
        ((word >> 8u16) & 0xFu16) as int == x_field(word),
        ((word >> 4u16) & 0xFu16) as int == y_field(word),
        (word & 0xFu16) as int == n_field(word),
        (word & 0xFFu16) as int == byte_field(word),
{
    assert(word >> 12u16 == word / 0x1000u16) by (bit_vector);
    assert(word & 0x0FFFu16 == word % 0x1000u16) by (bit_vector);
    assert((word >> 8u16) & 0xFu16 == (word / 0x100u16) % 0x10u16) by (bit_vector);
    assert((word >> 4u16) & 0xFu16 == (word / 0x10u16) % 0x10u16) by (bit_vector);
    assert(word & 0xFu16 == word % 0x10u16) by (bit_vector);
    assert(word & 0xFFu16 == word % 0x100u16) by (bit_vector);
}

/// The register operand (bits 8 to 11) and the byte operand of a word.
fn register_operands(word: u16) -> (r: (u8, u8))
    ensures
        r.0 as int == x_field(word),
        r.1 as int == byte_field(word),
{
    proof {
        lemma_word_fields(word);
    }
    (((word >> 8) & 0xF) as u8, (word & 0x0FF) as u8)
}

/// Decodes an instruction word. Never fails: a word outside the
/// implemented set becomes `UnknownInstruction`.
pub fn decode(word: u16) -> (r: AhoyInstruction)
    ensures
        r == decode_spec(word),
{
    proof {
        lemma_word_fields(word);
    }
    match word {
        0x00E0 => AhoyInstruction::ClearScreen,
        0x00EE => AhoyInstruction::StopSubroutine,
        _ => match word >> 12 {
            0x1 => AhoyInstruction::Jump((word & 0x0FFF) as usize),
            0x2 => AhoyInstruction::CallSubroutine(word & 0x0FFF),
            0x6 => {
                let (register, value) = register_operands(word);
                AhoyInstruction::SetRegister(register as usize, value)
            },
            0x7 => {
                let (register, value) = register_operands(word);
                AhoyInstruction::AddToRegister(register as usize, value)
            },
            0xA => AhoyInstruction::SetIndex(word & 0x0FFF),
            0xD => AhoyInstruction::Display {
                x_register: ((word >> 8) & 0xF) as usize,
                y_register: ((word >> 4) & 0xF) as usize,
                sprite_height: (word & 0xF) as u8,
            },
            _ => AhoyInstruction::UnknownInstruction(word),
        },
    }
}

impl From<u16> for AhoyInstruction {
    fn from(word: u16) -> (r: Self) {
        decode(word)
    }
}

impl vstd::std_specs::convert::FromSpecImpl<u16> for AhoyInstruction {
    open spec fn obeys_from_spec() -> bool {
        true
    }

    open spec fn from_spec(word: u16) -> Self {
        decode_spec(word)
    }
}

/// Whether the operands of an instruction name places that exist: addresses
/// in 12 bits, registers among the sixteen. Every decoded instruction has
/// this property.
pub open spec fn operands_in_range(i: AhoyInstruction) -> bool {
    match i {
        AhoyInstruction::Jump(addr) => addr < 0x1000,
        AhoyInstruction::CallSubroutine(addr) => addr < 0x1000,
        AhoyInstruction::SetRegister(register, _) => register < 0x10,
        AhoyInstruction::AddToRegister(register, _) => register < 0x10,
        AhoyInstruction::Display { x_register, y_register, .. } => x_register < 0x10 && y_register
            < 0x10,
        _ => true,
    }
}

/// The decoder only produces operands that are in range.
pub proof fn lemma_decoded_operands_in_range(word: u16)
    ensures
        operands_in_range(decode_spec(word)),
{
}

/// Whether a word lies in one of the decoded families or is one of the two
/// fixed words.
pub open spec fn is_recognized(word: u16) -> bool {
    word == 0x00E0 || word == 0x00EE || family(word) == 0x1 || family(word) == 0x2
        || family(word) == 0x6 || family(word) == 0x7 || family(word) == 0xA
        || family(word) == 0xD
}

/// Whether every field of an instruction fits its slot in an instruction
/// word: addresses in 12 bits, registers and sprite heights in 4 bits. An
/// unknown word must lie outside the recognized set.
pub open spec fn is_encodable(i: AhoyInstruction) -> bool {
    match i {
        AhoyInstruction::Jump(addr) => addr < 0x1000,
        AhoyInstruction::CallSubroutine(addr) => addr < 0x1000,
        AhoyInstruction::SetRegister(register, _) => register < 0x10,
        AhoyInstruction::AddToRegister(register, _) => register < 0x10,
        AhoyInstruction::SetIndex(addr) => addr < 0x1000,
        AhoyInstruction::Display { x_register, y_register, sprite_height } => x_register < 0x10
            && y_register < 0x10 && sprite_height < 0x10,
        AhoyInstruction::ClearScreen => true,
        AhoyInstruction::StopSubroutine => true,
        AhoyInstruction::UnknownInstruction(word) => !is_recognized(word),
    }
}

/// The instruction word that carries an instruction's fields.
pub open spec fn encode_spec(i: AhoyInstruction) -> u16 {
    match i {
        AhoyInstruction::Jump(addr) => (0x1000 + addr) as u16,
        AhoyInstruction::CallSubroutine(addr) => (0x2000 + addr) as u16,
        AhoyInstruction::SetRegister(register, value) => (0x6000 + register * 0x100 + value) as u16,
        AhoyInstruction::AddToRegister(register, value) => (0x7000 + register * 0x100
            + value) as u16,
        AhoyInstruction::SetIndex(addr) => (0xA000 + addr) as u16,
        AhoyInstruction::Display { x_register, y_register, sprite_height } => (0xD000 + x_register
            * 0x100 + y_register * 0x10 + sprite_height) as u16,
        AhoyInstruction::ClearScreen => 0x00E0,
        AhoyInstruction::StopSubroutine => 0x00EE,
        AhoyInstruction::UnknownInstruction(word) => word,
    }
}

/// Round trip: for every instruction family and every field value that fits
/// its slot, decoding the word built from those fields gives back exactly
/// the same instruction.
pub proof fn lemma_decode_encode(i: AhoyInstruction)
    requires
        is_encodable(i),
    ensures
        decode_spec(encode_spec(i)) == i,
{
    let w = encode_spec(i);
    match i {
        AhoyInstruction::SetRegister(register, value) => {
            assert(family(w) == 0x6 && x_field(w) == register && byte_field(w) == value)
                by (nonlinear_arith)
                requires
                    w == 0x6000 + register * 0x100 + value,
                    register < 0x10,
                    value < 0x100,
            ;
        },
        AhoyInstruction::AddToRegister(register, value) => {
            assert(family(w) == 0x7 && x_field(w) == register && byte_field(w) == value)
                by (nonlinear_arith)
                requires
                    w == 0x7000 + register * 0x100 + value,
                    register < 0x10,
                    value < 0x100,
            ;
        },
        AhoyInstruction::Display { x_register, y_register, sprite_height } => {
            assert(family(w) == 0xD && x_field(w) == x_register && y_field(w) == y_register
                && n_field(w) == sprite_height) by (nonlinear_arith)
                requires
                    w == 0xD000 + x_register * 0x100 + y_register * 0x10 + sprite_height,
                    x_register < 0x10,
                    y_register < 0x10,
                    sprite_height < 0x10,
            ;
        },
        _ => {},
    }
}

} // verus!
