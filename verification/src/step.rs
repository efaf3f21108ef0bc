//! The spec-level fetch-decode-execute step: a total function from machine
//! state, instruction word and random byte to the next state and outcome.
//! Every executable transition of the library is proved against it.
use crate::model::Chip;
use crate::model::Fault;
use crate::model::DISPLAY_HEIGHT;
use crate::model::DISPLAY_WIDTH;
use crate::model::NUM_KEYS;
use crate::model::NUM_REGISTERS;
use crate::model::RAM_SIZE;
use crate::model::STACK_SIZE;
use vstd::prelude::*;

verus! {

/// Highest four bits of an instruction word: the opcode group selector.
pub open spec fn nib1(op: u16) -> int {
    op as int / 0x1000
}

/// Bits 8 to 11 of an instruction word: the `x` register operand.
pub open spec fn nib2(op: u16) -> int {
    (op as int / 0x100) % 16
}

/// Bits 4 to 7 of an instruction word: the `y` register operand.
pub open spec fn nib3(op: u16) -> int {
    (op as int / 16) % 16
}

/// Lowest four bits of an instruction word: the `n` operand.
pub open spec fn nib4(op: u16) -> int {
    op as int % 16
}

/// Low byte of an instruction word: the `nn` immediate.
pub open spec fn low_byte(op: u16) -> u8 {
    (op as int % 256) as u8
}

/// Low twelve bits of an instruction word: the `nnn` address immediate.
pub open spec fn addr_field(op: u16) -> u16 {
    (op as int % 0x1000) as u16
}

/// The state with the program counter moved past the next instruction when
/// `cond` holds, unchanged otherwise.
pub open spec fn skip_if(s: Chip, cond: bool) -> Chip {
    if cond {
        Chip { pc: (s.pc + 2) as u16, ..s }
    } else {
        s
    }
}

/// The state with register `x` set to `v`.
pub open spec fn with_reg(s: Chip, x: int, v: u8) -> Chip {
    Chip { regs: s.regs.update(x, v), ..s }
}

/// The state with register `x` set to `v` and the flag register set to
/// `flag`, in that order (so the flag wins when `x` is the flag register).
pub open spec fn with_reg_flag(s: Chip, x: int, v: u8, flag: u8) -> Chip {
    Chip { regs: s.regs.update(x, v).update(15, flag), ..s }
}

/// Effect of the register-to-register arithmetic/logic group on the state:
/// `k` is the low nibble selecting the operation. Results use modulo-256
/// arithmetic; the flag register receives the carry, the negated borrow, or
/// the shifted-out bit.
pub open spec fn spec_alu(s: Chip, x: int, y: int, k: int) -> Chip {
    let vx = s.regs[x];
    let vy = s.regs[y];
    if k == 0 {
        with_reg(s, x, vy)
    } else if k == 1 {
        with_reg(s, x, vx | vy)
    } else if k == 2 {
        with_reg(s, x, vx & vy)
    } else if k == 3 {
        with_reg(s, x, vx ^ vy)
    } else if k == 4 {
        let sum: int = vx + vy;
        with_reg_flag(
            s,
            x,
            (if sum > 255 {
                sum - 256
            } else {
                sum
            }) as u8,
            if sum > 255 {
                1u8
            } else {
                0u8
            },
        )
    } else if k == 5 {
        with_reg_flag(
            s,
            x,
            (if vx >= vy {
                vx - vy
            } else {
                vx + 256 - vy
            }) as u8,
            if vx >= vy {
                1u8
            } else {
                0u8
            },
        )
    } else if k == 6 {
        with_reg_flag(s, x, (vx as int / 2) as u8, (vx as int % 2) as u8)
    } else if k == 7 {
        with_reg_flag(
            s,
            x,
            (if vy >= vx {
                vy - vx
            } else {
                vy + 256 - vx
            }) as u8,
            if vy >= vx {
                1u8
            } else {
                0u8
            },
        )
    } else {
        // k == 0xE
        with_reg_flag(
            s,
            x,
            (if vx >= 128 {
                (vx - 128) * 2
            } else {
                vx * 2
            }) as u8,
            if vx >= 128 {
                1u8
            } else {
                0u8
            },
        )
    }
}

/// Whether sprite column `col` (0 is the leftmost, most significant bit) of
/// a sprite row byte is set.
pub open spec fn sprite_bit(b: u8, col: int) -> bool {
    b & (0x80u8 >> (col as u8)) != 0
}

/// Framebuffer cell index of sprite column `col` of a sprite row drawn at
/// origin `(x0, y)`, with the horizontal coordinate wrapped.
pub open spec fn cell_at(x0: int, y: int, col: int) -> int {
    (x0 + col) % (DISPLAY_WIDTH as int) + (DISPLAY_WIDTH as int) * y
}

/// One sprite row folded onto the framebuffer, columns `0..ncols` in order:
/// each set bit toggles its wrapped cell, and `hit` accumulates whether a
/// toggled cell was lit just before its toggle. `y` is already wrapped.
pub open spec fn draw_row(
    d: Seq<bool>,
    hit: bool,
    b: u8,
    x0: int,
    y: int,
    ncols: int,
) -> (Seq<bool>, bool)
    decreases ncols,
{
    if ncols <= 0 {
        (d, hit)
    } else {
        let prev = draw_row(d, hit, b, x0, y, ncols - 1);
        let col = ncols - 1;
        if sprite_bit(b, col) {
            let idx = cell_at(x0, y, col);
            (prev.0.update(idx, !prev.0[idx]), prev.1 || prev.0[idx])
        } else {
            prev
        }
    }
}

/// A sprite of `nrows` rows folded onto the framebuffer, rows `0..nrows` in
/// order. Row `r` comes from memory cell `i + r` and lands at vertical
/// coordinate `(y0 + r)` wrapped around the display height.
pub open spec fn draw_sprite(
    d: Seq<bool>,
    hit: bool,
    ram: Seq<u8>,
    i: int,
    x0: int,
    y0: int,
    nrows: int,
) -> (Seq<bool>, bool)
    decreases nrows,
{
    if nrows <= 0 {
        (d, hit)
    } else {
        let prev = draw_sprite(d, hit, ram, i, x0, y0, nrows - 1);
        let row = nrows - 1;
        draw_row(prev.0, prev.1, ram[i + row], x0, (y0 + row) % (DISPLAY_HEIGHT as int), 8)
    }
}

/// Effect of the draw instruction: blit an `n`-row sprite from memory at the
/// index register onto the framebuffer at the coordinates held in registers
/// `x` and `y`, and record in the flag register whether any toggled cell had
/// been lit.
pub open spec fn spec_draw(s: Chip, x: int, y: int, n: int) -> (Chip, Result<(), Fault>) {
    if s.ireg + n > RAM_SIZE {
        (s, Err(Fault::MemoryOutOfRange))
    } else {
        let blit = draw_sprite(
            s.display,
            false,
            s.ram,
            s.ireg as int,
            s.regs[x] as int,
            s.regs[y] as int,
            n,
        );
        (
            Chip {
                display: blit.0,
                regs: s.regs.update(
                    15,
                    if blit.1 {
                        1u8
                    } else {
                        0u8
                    },
                ),
                ..s
            },
            Ok(()),
        )
    }
}

/// Index of the lowest pressed key at or above `k`, if any.
pub open spec fn first_pressed(keys: Seq<bool>, k: int) -> Option<int>
    decreases NUM_KEYS - k,
{
    if k < 0 || k >= NUM_KEYS {
        None
    } else if keys[k] {
        Some(k)
    } else {
        first_pressed(keys, k + 1)
    }
}

/// Memory after registers `0..=x` are copied to the cells starting at the
/// index register.
pub open spec fn stored_regs(s: Chip, x: int) -> Seq<u8> {
    Seq::new(
        RAM_SIZE as nat,
        |j: int|
            if s.ireg <= j <= s.ireg + x {
                s.regs[j - s.ireg]
            } else {
                s.ram[j]
            },
    )
}

/// Registers after cells starting at the index register are copied into
/// registers `0..=x`.
pub open spec fn loaded_regs(s: Chip, x: int) -> Seq<u8> {
    Seq::new(
        NUM_REGISTERS as nat,
        |j: int|
            if j <= x {
                s.ram[s.ireg + j]
            } else {
                s.regs[j]
            },
    )
}

/// Effect of the miscellaneous group (highest nibble `F`), selected by the
/// two low nibbles. The unmatched encodings fall to the unknown-opcode
/// fault.
pub open spec fn spec_fx(s: Chip, x: int, d3: int, d4: int, op: u16) -> (Chip, Result<
    (),
    Fault,
>) {
    let vx = s.regs[x];
    if d3 == 0 && d4 == 7 {
        (with_reg(s, x, s.delay), Ok(()))
    } else if d3 == 0 && d4 == 0xA {
        match first_pressed(s.keys, 0) {
            Some(k) => (with_reg(s, x, k as u8), Ok(())),
            None => (Chip { pc: (s.pc - 2) as u16, ..s }, Ok(())),
        }
    } else if d3 == 1 && d4 == 5 {
        (Chip { delay: vx, ..s }, Ok(()))
    } else if d3 == 1 && d4 == 8 {
        (Chip { sound: vx, ..s }, Ok(()))
    } else if d3 == 1 && d4 == 0xE {
        let t: int = s.ireg + vx;
        (
            Chip {
                ireg: (if t > 0xFFFF {
                    t - 0x10000
                } else {
                    t
                }) as u16,
                ..s
            },
            Ok(()),
        )
    } else if d3 == 2 && d4 == 9 {
        (Chip { ireg: (vx * 5) as u16, ..s }, Ok(()))
    } else if d3 == 3 && d4 == 3 {
        if s.ireg + 2 >= RAM_SIZE {
            (s, Err(Fault::MemoryOutOfRange))
        } else {
            let i = s.ireg as int;
            (
                Chip {
                    ram: s.ram.update(i, (vx as int / 100) as u8).update(
                        i + 1,
                        ((vx as int / 10) % 10) as u8,
                    ).update(i + 2, (vx as int % 10) as u8),
                    ..s
                },
                Ok(()),
            )
        }
    } else if d3 == 5 && d4 == 5 {
        if s.ireg + x >= RAM_SIZE {
            (s, Err(Fault::MemoryOutOfRange))
        } else {
            (Chip { ram: stored_regs(s, x), ..s }, Ok(()))
        }
    } else if d3 == 6 && d4 == 5 {
        if s.ireg + x >= RAM_SIZE {
            (s, Err(Fault::MemoryOutOfRange))
        } else {
            (Chip { regs: loaded_regs(s, x), ..s }, Ok(()))
        }
    } else {
        (s, Err(Fault::UnknownOpcode(op)))
    }
}

/// Effect of executing one already-fetched instruction word on a state whose
/// program counter has already advanced past it. Total: every word either
/// maps to exactly one instruction effect or to a fault, and on a fault the
/// state is returned unchanged.
pub open spec fn spec_execute(s: Chip, op: u16, rnd: u8) -> (Chip, Result<(), Fault>) {
    let d1 = nib1(op);
    let d2 = nib2(op);
    let d3 = nib3(op);
    let d4 = nib4(op);
    let x = d2;
    let y = d3;
    let nn = low_byte(op);
    let nnn = addr_field(op);
    if d1 == 0 && d2 == 0 && d3 == 0 && d4 == 0 {
        (s, Ok(()))
    } else if d1 == 0 && d2 == 0 && d3 == 0xE && d4 == 0 {
        (
            Chip {
                display: Seq::new((DISPLAY_WIDTH * DISPLAY_HEIGHT) as nat, |i: int| false),
                ..s
            },
            Ok(()),
        )
    } else if d1 == 0 && d2 == 0 && d3 == 0xE && d4 == 0xE {
        if s.sp == 0 {
            (s, Err(Fault::StackUnderflow))
        } else {
            (Chip { pc: s.stack[s.sp - 1], sp: (s.sp - 1) as u16, ..s }, Ok(()))
        }
    } else if d1 == 1 {
        (Chip { pc: nnn, ..s }, Ok(()))
    } else if d1 == 2 {
        if s.sp >= STACK_SIZE {
            (s, Err(Fault::StackOverflow))
        } else {
            (
                Chip {
                    pc: nnn,
                    sp: (s.sp + 1) as u16,
                    stack: s.stack.update(s.sp as int, s.pc),
                    ..s
                },
                Ok(()),
            )
        }
    } else if d1 == 3 {
        (skip_if(s, s.regs[x] == nn), Ok(()))
    } else if d1 == 4 {
        (skip_if(s, s.regs[x] != nn), Ok(()))
    } else if d1 == 5 && d4 == 0 {
        (skip_if(s, s.regs[x] == s.regs[y]), Ok(()))
    } else if d1 == 6 {
        (with_reg(s, x, nn), Ok(()))
    } else if d1 == 7 {
        let sum: int = s.regs[x] + nn;
        (
            with_reg(
                s,
                x,
                (if sum > 255 {
                    sum - 256
                } else {
                    sum
                }) as u8,
            ),
            Ok(()),
        )
    } else if d1 == 8 && (d4 <= 7 || d4 == 0xE) {
        (spec_alu(s, x, y, d4), Ok(()))
    } else if d1 == 9 && d4 == 0 {
        (skip_if(s, s.regs[x] != s.regs[y]), Ok(()))
    } else if d1 == 0xA {
        (Chip { ireg: nnn, ..s }, Ok(()))
    } else if d1 == 0xB {
        (Chip { pc: (s.regs[0] + nnn) as u16, ..s }, Ok(()))
    } else if d1 == 0xC {
        (with_reg(s, x, rnd & nn), Ok(()))
    } else if d1 == 0xD {
        spec_draw(s, x, y, d4)
    } else if d1 == 0xE && d3 == 9 && d4 == 0xE {
        if s.regs[x] >= NUM_KEYS {
            (s, Err(Fault::KeyOutOfRange))
        } else {
            (skip_if(s, s.keys[s.regs[x] as int]), Ok(()))
        }
    } else if d1 == 0xE && d3 == 0xA && d4 == 1 {
        if s.regs[x] >= NUM_KEYS {
            (s, Err(Fault::KeyOutOfRange))
        } else {
            (skip_if(s, !s.keys[s.regs[x] as int]), Ok(()))
        }
    } else if d1 == 0xF {
        spec_fx(s, x, d3, d4, op)
    } else {
        (s, Err(Fault::UnknownOpcode(op)))
    }
}

/// The instruction word at the program counter: the addressed cell is the
/// high byte, the next cell the low byte.
pub open spec fn fetched(s: Chip) -> u16 {
    (s.ram[s.pc as int] * 256 + s.ram[s.pc as int + 1]) as u16
}

/// One whole machine tick: fetch the word at the program counter (faulting
/// if it does not address a full word), advance the counter by two, then
/// execute the word. `rnd` is the byte an execution of the random
/// instruction would use; every other instruction ignores it.
pub open spec fn spec_tick(s: Chip, rnd: u8) -> (Chip, Result<(), Fault>) {
    if s.pc + 1 >= RAM_SIZE {
        (s, Err(Fault::ProgramCounterOutOfRange))
    } else {
        spec_execute(Chip { pc: (s.pc + 2) as u16, ..s }, fetched(s), rnd)
    }
}

/// Whether an instruction word matches one of the 35 instruction patterns.
pub open spec fn known_opcode(op: u16) -> bool {
    let d1 = nib1(op);
    let d3 = nib3(op);
    let d4 = nib4(op);
    ||| (nib2(op) == 0 && d1 == 0 && (
        (d3 == 0 && d4 == 0) || (d3 == 0xE && d4 == 0) || (d3 == 0xE && d4 == 0xE)
    ))
    ||| (d1 == 1 || d1 == 2 || d1 == 3 || d1 == 4 || d1 == 6 || d1 == 7)
    ||| (d1 == 0xA || d1 == 0xB || d1 == 0xC || d1 == 0xD)
    ||| ((d1 == 5 || d1 == 9) && d4 == 0)
    ||| (d1 == 8 && (d4 <= 7 || d4 == 0xE))
    ||| (d1 == 0xE && ((d3 == 9 && d4 == 0xE) || (d3 == 0xA && d4 == 1)))
    ||| (d1 == 0xF && (
        (d3 == 0 && d4 == 7) || (d3 == 0 && d4 == 0xA) || (d3 == 1 && d4 == 5) || (d3 == 1
            && d4 == 8) || (d3 == 1 && d4 == 0xE) || (d3 == 2 && d4 == 9) || (d3 == 3 && d4
            == 3) || (d3 == 5 && d4 == 5) || (d3 == 6 && d4 == 5)
    ))
}

} // verus!
