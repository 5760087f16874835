//! Sizes and addresses of the machine, and the built-in font.

use vstd::prelude::*;

verus! {

/// Bytes of memory.
pub const MAX_MEMORY: usize = 4096;

/// Address where a loaded program starts.
pub const PROGRAM_MEMORY_START: usize = 0x200;

/// Bytes available to a loaded program.
pub const AVAILABLE_PROGRAM_MEMORY: usize = 3584;

/// Address of the first font byte.
pub const FONT_START: usize = 0x050;

/// Bytes in the font table: five for each hexadecimal digit.
pub const FONT_LEN: usize = 80;

/// Number of general-purpose registers.
pub const REGISTER_COUNT: usize = 16;

/// The register that doubles as the collision flag.
pub const FLAG_REGISTER: usize = 0xF;

/// Return addresses the call stack can hold.
pub const STACK_CAPACITY: usize = 256;

/// The glyphs of the hexadecimal digits 0 to F, five rows of four pixels
/// each, in the high nibble of every byte.
pub open spec fn font_spec() -> Seq<u8> {
    seq![
        0xF0u8, 0x90, 0x90, 0x90, 0xF0, 0x20, 0x60, 0x20, 0x20, 0x70, 0xF0, 0x10, 0xF0, 0x80, 0xF0,
        0xF0, 0x10, 0xF0, 0x10, 0xF0, 0x90, 0x90, 0xF0, 0x10, 0x10, 0xF0, 0x80, 0xF0, 0x10, 0xF0,
        0xF0, 0x80, 0xF0, 0x90, 0xF0, 0xF0, 0x10, 0x20, 0x40, 0x40, 0xF0, 0x90, 0xF0, 0x90, 0xF0,
        0xF0, 0x90, 0xF0, 0x10, 0xF0, 0xF0, 0x90, 0xF0, 0x90, 0x90, 0xE0, 0x90, 0xE0, 0x90, 0xE0,
        0xF0, 0x80, 0x80, 0x80, 0xF0, 0xE0, 0x90, 0x90, 0x90, 0xE0, 0xF0, 0x80, 0xF0, 0x80, 0xF0,
        0xF0, 0x80, 0xF0, 0x80, 0x80,
    ]
}

/// The font table.
pub fn font() -> (r: [u8; FONT_LEN])
    ensures
        r@ == font_spec(),
{
    let r: [u8; FONT_LEN] = [
        0xF0, 0x90, 0x90, 0x90, 0xF0, // 0
        0x20, 0x60, 0x20, 0x20, 0x70, // 1
        0xF0, 0x10, 0xF0, 0x80, 0xF0, // 2
        0xF0, 0x10, 0xF0, 0x10, 0xF0, // 3
        0x90, 0x90, 0xF0, 0x10, 0x10, // 4
        0xF0, 0x80, 0xF0, 0x10, 0xF0, // 5
        0xF0, 0x80, 0xF0, 0x90, 0xF0, // 6
        0xF0, 0x10, 0x20, 0x40, 0x40, // 7
        0xF0, 0x90, 0xF0, 0x90, 0xF0, // 8
        0xF0, 0x90, 0xF0, 0x10, 0xF0, // 9
        0xF0, 0x90, 0xF0, 0x90, 0x90, // A
        0xE0, 0x90, 0xE0, 0x90, 0xE0, // B
        0xF0, 0x80, 0x80, 0x80, 0xF0, // C
        0xE0, 0x90, 0x90, 0x90, 0xE0, // D
        0xF0, 0x80, 0xF0, 0x80, 0xF0, // E
        0xF0, 0x80, 0xF0, 0x80, 0x80, // F
    ];
    assert(r@ =~= font_spec());
    r
}

} // verus!
