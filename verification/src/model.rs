//! Mathematical model of the machine: the ghost state that every contract
//! of the library speaks of, and the spec-level views of its lifecycle.
use vstd::prelude::*;

verus! {

/// Number of addressable memory cells.
pub const RAM_SIZE: usize = 4096;

/// Number of general-purpose registers.
pub const NUM_REGISTERS: usize = 16;

/// Capacity of the return-address stack.
pub const STACK_SIZE: usize = 16;

/// Number of keys of the input model.
pub const NUM_KEYS: usize = 16;

/// Width of the framebuffer in cells.
pub const DISPLAY_WIDTH: usize = 64;

/// Height of the framebuffer in cells.
pub const DISPLAY_HEIGHT: usize = 32;

/// Address at which program images are placed and where execution starts.
pub const START_ADDRESS: u16 = 0x200;

/// Number of bytes of the built-in glyph table (16 glyphs, 5 bytes each).
pub const FONT_SIZE: usize = 80;

/// A typed, catchable fault raised by a tick.
///
/// The reference behaviour of the architecture leaves unknown encodings and
/// out-of-range accesses fatal or unchecked; this library surfaces each as a
/// recoverable, exactly specified error instead. On a fault the machine keeps
/// the state it had after the fetch; no instruction effect is applied partly.
#[derive(Clone, Copy, PartialEq, Eq, Structural, Debug)]
pub enum Fault {
    /// The fetched word matches none of the instruction patterns.
    UnknownOpcode(u16),
    /// The program counter does not address a full instruction word.
    ProgramCounterOutOfRange,
    /// A subroutine call found the return-address stack full.
    StackOverflow,
    /// A subroutine return found the return-address stack empty.
    StackUnderflow,
    /// An instruction addressed memory past the last cell.
    MemoryOutOfRange,
    /// A key-skip instruction used a register value outside the key range.
    KeyOutOfRange,
}

/// The machine state as the contracts see it.
#[verifier::ext_equal]
pub ghost struct Chip {
    /// Program counter.
    pub pc: u16,
    /// Memory, `RAM_SIZE` cells.
    pub ram: Seq<u8>,
    /// Framebuffer, row-major, `DISPLAY_WIDTH * DISPLAY_HEIGHT` cells.
    pub display: Seq<bool>,
    /// General-purpose registers, `NUM_REGISTERS` of them.
    pub regs: Seq<u8>,
    /// Index register.
    pub ireg: u16,
    /// Stack pointer: number of return addresses held.
    pub sp: u16,
    /// Return-address stack, `STACK_SIZE` slots.
    pub stack: Seq<u16>,
    /// Key states, `NUM_KEYS` of them.
    pub keys: Seq<bool>,
    /// Delay timer.
    pub delay: u8,
    /// Sound timer.
    pub sound: u8,
}

impl Chip {
    /// Well-formedness: every aggregate has its fixed capacity and the stack
    /// pointer stays within the stack.
    pub open spec fn wf(self) -> bool {
        &&& self.ram.len() == RAM_SIZE
        &&& self.display.len() == DISPLAY_WIDTH * DISPLAY_HEIGHT
        &&& self.regs.len() == NUM_REGISTERS
        &&& self.stack.len() == STACK_SIZE
        &&& self.keys.len() == NUM_KEYS
        &&& self.sp <= STACK_SIZE
    }
}

/// The built-in glyph table: bitmaps of the sixteen hexadecimal digits,
/// five bytes per glyph.
pub open spec fn font() -> Seq<u8> {
    seq![
        0xF0u8, 0x90, 0x90, 0x90, 0xF0, // 0
        0x20, 0x60, 0x20, 0x20, 0x70, // 1
        0xF0, 0x10, 0xF0, 0x80, 0xF0, // 2
        0xF0, 0x10, 0xF0, 0x10, 0xF0, // 3
        0x90, 0x90, 0xF0, 0x10, 0x10, // 4
        0xF0, 0x80, 0xF0, 0x10, 0xF0, // 5
        0xF0, 0x80, 0xF0, 0x90, 0xF0, // 6
        0xF0, 0x10, 0x20, 0x40, 0x40, // 7
        0xF0, 0x90, 0xF0, 0x90, 0xF0, // 8
        0xF0, 0x90, 0xF0, 0x10, 0xF0, // 9
        0xF0, 0x90, 0xF0, 0x90, 0x90, // A
        0xE0, 0x90, 0xE0, 0x90, 0xE0, // B
        0xF0, 0x80, 0x80, 0x80, 0xF0, // C
        0xE0, 0x90, 0x90, 0x90, 0xE0, // D
        0xF0, 0x80, 0xF0, 0x80, 0xF0, // E
        0xF0, 0x80, 0xF0, 0x80, 0x80, // F
    ]
}

/// Memory of a fresh machine: the glyph table in the first cells, zero
/// everywhere else.
pub open spec fn fresh_ram() -> Seq<u8> {
    Seq::new(RAM_SIZE as nat, |i: int| if i < FONT_SIZE { font()[i] } else { 0u8 })
}

/// The state of a freshly constructed (or freshly reset) machine.
pub open spec fn fresh() -> Chip {
    Chip {
        pc: START_ADDRESS,
        ram: fresh_ram(),
        display: Seq::new((DISPLAY_WIDTH * DISPLAY_HEIGHT) as nat, |i: int| false),
        regs: Seq::new(NUM_REGISTERS as nat, |i: int| 0u8),
        ireg: 0,
        sp: 0,
        stack: Seq::new(STACK_SIZE as nat, |i: int| 0u16),
        keys: Seq::new(NUM_KEYS as nat, |i: int| false),
        delay: 0,
        sound: 0,
    }
}

/// One timer step: decrement by one if nonzero, floor at zero.
pub open spec fn dec(t: u8) -> u8 {
    if t > 0 {
        (t - 1) as u8
    } else {
        0
    }
}

/// Memory after a program image is copied in at the start address.
pub open spec fn loaded_ram(ram: Seq<u8>, data: Seq<u8>) -> Seq<u8> {
    Seq::new(
        RAM_SIZE as nat,
        |j: int|
            if START_ADDRESS <= j < START_ADDRESS + data.len() {
                data[j - START_ADDRESS]
            } else {
                ram[j]
            },
    )
}

} // verus!
