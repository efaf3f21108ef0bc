//! Laws of the instruction set that hold across functions: dispatch
//! totality, the modulo-256 arithmetic of the arithmetic group, and the
//! meaning of the collision flag of the draw instruction.
use crate::model::Chip;
use crate::model::Fault;
use crate::model::DISPLAY_HEIGHT;
use crate::model::DISPLAY_WIDTH;
use crate::model::NUM_REGISTERS;
use crate::step::draw_row;
use crate::step::draw_sprite;
use crate::step::known_opcode;
use crate::step::low_byte;
use crate::step::nib1;
use crate::step::nib2;
use crate::step::spec_alu;
use crate::step::spec_draw;
use crate::step::spec_execute;
use crate::step::cell_at;
use crate::step::sprite_bit;
use vstd::arithmetic::div_mod::lemma_fundamental_div_mod;
use vstd::arithmetic::div_mod::lemma_fundamental_div_mod_converse;
use vstd::arithmetic::div_mod::lemma_mod_add_multiples_vanish;
use vstd::arithmetic::div_mod::lemma_small_mod;
use vstd::prelude::*;

verus! {

/// Law: dispatch is total with a reachable fallback. Executing a word
/// raises the unknown-opcode fault exactly when the word matches none of
/// the 35 instruction patterns; dispatch being a function, every word is
/// routed to exactly one effect.
pub proof fn lemma_dispatch_total(s: Chip, op: u16, rnd: u8)
    ensures
        spec_execute(s, op, rnd).1 == Err::<(), Fault>(Fault::UnknownOpcode(op))
            <==> !known_opcode(op),
{
}

/// Law: the register add uses modulo-256 arithmetic, and the flag register
/// becomes 1 exactly when the sum carries out of eight bits.
pub proof fn lemma_alu_add_mod256(s: Chip, x: int, y: int)
    requires
        s.wf(),
        0 <= x < NUM_REGISTERS,
        0 <= y < NUM_REGISTERS,
    ensures
        spec_alu(s, x, y, 4).regs[15] == (if s.regs[x] + s.regs[y] > 255 {
            1u8
        } else {
            0u8
        }),
        x != 15 ==> spec_alu(s, x, y, 4).regs[x] == ((s.regs[x] + s.regs[y]) % 256) as u8,
{
    let sum: int = s.regs[x] + s.regs[y];
    if sum > 255 {
        lemma_mod_add_multiples_vanish(sum - 256, 256);
        lemma_small_mod((sum - 256) as nat, 256);
    } else {
        lemma_small_mod(sum as nat, 256);
    }
}

/// Law: the register subtract uses modulo-256 arithmetic, and the flag
/// register becomes 1 exactly when no borrow occurs.
pub proof fn lemma_alu_sub_mod256(s: Chip, x: int, y: int)
    requires
        s.wf(),
        0 <= x < NUM_REGISTERS,
        0 <= y < NUM_REGISTERS,
    ensures
        spec_alu(s, x, y, 5).regs[15] == (if s.regs[x] >= s.regs[y] {
            1u8
        } else {
            0u8
        }),
        x != 15 ==> spec_alu(s, x, y, 5).regs[x] == ((s.regs[x] - s.regs[y]) % 256) as u8,
{
    let diff: int = s.regs[x] - s.regs[y];
    if diff >= 0 {
        lemma_small_mod(diff as nat, 256);
    } else {
        lemma_mod_add_multiples_vanish(diff, 256);
        lemma_small_mod((diff + 256) as nat, 256);
    }
}

/// Law: the reversed subtract uses modulo-256 arithmetic, and the flag
/// register becomes 1 exactly when no borrow occurs.
pub proof fn lemma_alu_subn_mod256(s: Chip, x: int, y: int)
    requires
        s.wf(),
        0 <= x < NUM_REGISTERS,
        0 <= y < NUM_REGISTERS,
    ensures
        spec_alu(s, x, y, 7).regs[15] == (if s.regs[y] >= s.regs[x] {
            1u8
        } else {
            0u8
        }),
        x != 15 ==> spec_alu(s, x, y, 7).regs[x] == ((s.regs[y] - s.regs[x]) % 256) as u8,
{
    let diff: int = s.regs[y] - s.regs[x];
    if diff >= 0 {
        lemma_small_mod(diff as nat, 256);
    } else {
        lemma_mod_add_multiples_vanish(diff, 256);
        lemma_small_mod((diff + 256) as nat, 256);
    }
}

/// Law: the left shift uses modulo-256 arithmetic, and the flag register
/// receives exactly the shifted-out high bit; the right shift halves the
/// register, and the flag register receives exactly the shifted-out low
/// bit.
pub proof fn lemma_alu_shift_mod256(s: Chip, x: int, y: int)
    requires
        s.wf(),
        0 <= x < NUM_REGISTERS,
        0 <= y < NUM_REGISTERS,
    ensures
        spec_alu(s, x, y, 0xE).regs[15] == (s.regs[x] as int / 128) as u8,
        x != 15 ==> spec_alu(s, x, y, 0xE).regs[x] == ((2 * s.regs[x]) % 256) as u8,
        spec_alu(s, x, y, 6).regs[15] == (s.regs[x] as int % 2) as u8,
        x != 15 ==> spec_alu(s, x, y, 6).regs[x] == (s.regs[x] as int / 2) as u8,
{
    let vx: int = s.regs[x] as int;
    if vx >= 128 {
        lemma_mod_add_multiples_vanish(2 * vx - 256, 256);
        lemma_small_mod((2 * vx - 256) as nat, 256);
    } else {
        lemma_small_mod((2 * vx) as nat, 256);
    }
}

/// Law: the add-immediate instruction uses modulo-256 arithmetic.
pub proof fn lemma_add_imm_mod256(s: Chip, op: u16, rnd: u8)
    requires
        s.wf(),
        nib1(op) == 7,
    ensures
        spec_execute(s, op, rnd).0.regs[nib2(op)] == ((s.regs[nib2(op)] + low_byte(op))
            % 256) as u8,
{
    let sum: int = s.regs[nib2(op)] + low_byte(op);
    if sum > 255 {
        lemma_mod_add_multiples_vanish(sum - 256, 256);
        lemma_small_mod((sum - 256) as nat, 256);
    } else {
        lemma_small_mod(sum as nat, 256);
    }
}

/// Two offsets less than the modulus apart land on distinct residues.
proof fn lemma_mod_distinct(base: int, a: int, b: int, m: int)
    requires
        0 <= base,
        0 <= a < b,
        b - a < m,
        0 < m,
    ensures
        (base + a) % m != (base + b) % m,
{
    if (base + a) % m == (base + b) % m {
        lemma_fundamental_div_mod(base + a, m);
        lemma_fundamental_div_mod(base + b, m);
        let qa = (base + a) / m;
        let qb = (base + b) / m;
        assert(b - a == m * (qb - qa)) by (nonlinear_arith)
            requires
                base + a == m * qa + (base + a) % m,
                base + b == m * qb + (base + b) % m,
                (base + a) % m == (base + b) % m,
        ;
        assert(false) by (nonlinear_arith)
            requires
                b - a == m * (qb - qa),
                0 < b - a < m,
        ;
    }
}

/// Cell-exact effect of one sprite row: untouched cells keep their value,
/// each set bit toggles its cell exactly once, and the collision
/// accumulator ends true exactly when it began true or some set bit's cell
/// was lit.
proof fn lemma_draw_row_exact(d: Seq<bool>, hit: bool, b: u8, x0: int, y: int, ncols: int)
    requires
        d.len() == DISPLAY_WIDTH * DISPLAY_HEIGHT,
        0 <= x0,
        0 <= y < DISPLAY_HEIGHT,
        0 <= ncols <= 8,
    ensures
        draw_row(d, hit, b, x0, y, ncols).0.len() == d.len(),
        forall|c: int|
            0 <= c < d.len() && !(exists|col: int|
                0 <= col < ncols && sprite_bit(b, col) && cell_at(x0, y, col) == c) ==> draw_row(
                d,
                hit,
                b,
                x0,
                y,
                ncols,
            ).0[c] == d[c],
        forall|col: int|
            0 <= col < ncols && sprite_bit(b, col) ==> #[trigger] draw_row(
                d,
                hit,
                b,
                x0,
                y,
                ncols,
            ).0[cell_at(x0, y, col)] == !d[cell_at(x0, y, col)],
        draw_row(d, hit, b, x0, y, ncols).1 == (hit || exists|col: int|
            0 <= col < ncols && sprite_bit(b, col) && d[cell_at(x0, y, col)]),
    decreases ncols,
{
    if ncols > 0 {
        lemma_draw_row_exact(d, hit, b, x0, y, ncols - 1);
        let prev = draw_row(d, hit, b, x0, y, ncols - 1);
        let res = draw_row(d, hit, b, x0, y, ncols);
        let col = ncols - 1;
        if sprite_bit(b, col) {
            let idx = cell_at(x0, y, col);
            assert(0 <= idx < d.len());
            assert(!(exists|c2: int|
                0 <= c2 < ncols - 1 && sprite_bit(b, c2) && cell_at(x0, y, c2) == idx)) by {
                if exists|c2: int|
                    0 <= c2 < ncols - 1 && sprite_bit(b, c2) && cell_at(x0, y, c2) == idx {
                    let c2 = choose|c2: int|
                        0 <= c2 < ncols - 1 && sprite_bit(b, c2) && cell_at(x0, y, c2) == idx;
                    lemma_mod_distinct(x0, c2, col, DISPLAY_WIDTH as int);
                }
            }
            assert(prev.0[idx] == d[idx]);
            assert(res.0 == prev.0.update(idx, !prev.0[idx]));
            assert(res.1 == (prev.1 || prev.0[idx]));
            // Untouched cells keep their value.
            assert forall|c: int|
                0 <= c < d.len() && !(exists|col2: int|
                    0 <= col2 < ncols && sprite_bit(b, col2) && cell_at(x0, y, col2)
                        == c) implies res.0[c] == d[c] by {
                assert(c != idx);
                assert(!(exists|col2: int|
                    0 <= col2 < ncols - 1 && sprite_bit(b, col2) && cell_at(x0, y, col2) == c));
            }
            // Each set bit's cell toggles exactly once.
            assert forall|col2: int|
                0 <= col2 < ncols && sprite_bit(b, col2) implies #[trigger] res.0[cell_at(
                x0,
                y,
                col2,
            )] == !d[cell_at(x0, y, col2)] by {
                if col2 == col {
                    assert(res.0[idx] == !d[idx]);
                } else {
                    lemma_mod_distinct(x0, col2, col, DISPLAY_WIDTH as int);
                    assert(cell_at(x0, y, col2) != idx);
                    assert(res.0[cell_at(x0, y, col2)] == prev.0[cell_at(x0, y, col2)]);
                }
            }
            // Collision accumulator.
            assert(res.1 == (hit || exists|col2: int|
                0 <= col2 < ncols && sprite_bit(b, col2) && d[cell_at(x0, y, col2)])) by {
                if res.1 {
                    if prev.1 {
                        if !hit {
                            let w = choose|col2: int|
                                0 <= col2 < ncols - 1 && sprite_bit(b, col2) && d[cell_at(
                                    x0,
                                    y,
                                    col2,
                                )];
                            assert(0 <= w < ncols && sprite_bit(b, w) && d[cell_at(x0, y, w)]);
                        }
                    } else {
                        assert(d[cell_at(x0, y, col)]);
                    }
                }
                if hit || exists|col2: int|
                    0 <= col2 < ncols && sprite_bit(b, col2) && d[cell_at(x0, y, col2)] {
                    if !hit {
                        let w = choose|col2: int|
                            0 <= col2 < ncols && sprite_bit(b, col2) && d[cell_at(x0, y, col2)];
                        if w < ncols - 1 {
                            assert(prev.1);
                        } else {
                            assert(w == col);
                            assert(prev.0[idx]);
                        }
                    }
                }
            }
        } else {
            assert(res == prev);
            assert forall|c: int|
                0 <= c < d.len() && !(exists|col2: int|
                    0 <= col2 < ncols && sprite_bit(b, col2) && cell_at(x0, y, col2)
                        == c) implies res.0[c] == d[c] by {
                assert(!(exists|col2: int|
                    0 <= col2 < ncols - 1 && sprite_bit(b, col2) && cell_at(x0, y, col2) == c));
            }
            assert(res.1 == (hit || exists|col2: int|
                0 <= col2 < ncols && sprite_bit(b, col2) && d[cell_at(x0, y, col2)])) by {
                if res.1 && !hit {
                    let w = choose|col2: int|
                        0 <= col2 < ncols - 1 && sprite_bit(b, col2) && d[cell_at(x0, y, col2)];
                    assert(0 <= w < ncols && sprite_bit(b, w) && d[cell_at(x0, y, w)]);
                }
                if !res.1 && (hit || exists|col2: int|
                    0 <= col2 < ncols && sprite_bit(b, col2) && d[cell_at(x0, y, col2)]) {
                    let w = choose|col2: int|
                        0 <= col2 < ncols && sprite_bit(b, col2) && d[cell_at(x0, y, col2)];
                    assert(w != col);
                    assert(0 <= w < ncols - 1 && sprite_bit(b, w) && d[cell_at(x0, y, w)]);
                }
            }
        }
    }
}

/// Framebuffer line that sprite row `r` of a sprite drawn at vertical
/// origin `y0` lands on: the wrapped vertical coordinate.
spec fn line_of(y0: int, r: int) -> int {
    (y0 + r) % (DISPLAY_HEIGHT as int)
}

/// Framebuffer cell of sprite row `r`, column `col`, for a sprite drawn at
/// `(x0, y0)`: both coordinates wrapped.
spec fn sprite_cell(x0: int, y0: int, r: int, col: int) -> int {
    cell_at(x0, line_of(y0, r), col)
}

/// Every cell of a row drawn on line `y` lies on line `y` of the
/// framebuffer, and within the framebuffer.
proof fn lemma_cell_line(x0: int, y: int, col: int)
    requires
        0 <= x0,
        0 <= col,
        0 <= y < DISPLAY_HEIGHT,
    ensures
        0 <= cell_at(x0, y, col) < DISPLAY_WIDTH * DISPLAY_HEIGHT,
        cell_at(x0, y, col) / (DISPLAY_WIDTH as int) == y,
{
    let rem = (x0 + col) % (DISPLAY_WIDTH as int);
    lemma_fundamental_div_mod_converse(cell_at(x0, y, col), DISPLAY_WIDTH as int, y, rem);
}

/// Cell-exact effect of a whole sprite: cells on lines the sprite does not
/// reach keep their value, each set bit toggles its cell exactly once, and
/// the collision accumulator ends true exactly when it began true or some
/// set bit's cell was lit.
proof fn lemma_draw_sprite_exact(
    d: Seq<bool>,
    hit: bool,
    ram: Seq<u8>,
    i: int,
    x0: int,
    y0: int,
    nrows: int,
)
    requires
        d.len() == DISPLAY_WIDTH * DISPLAY_HEIGHT,
        0 <= x0,
        0 <= y0,
        0 <= nrows <= 16,
    ensures
        draw_sprite(d, hit, ram, i, x0, y0, nrows).0.len() == d.len(),
        forall|c: int|
            0 <= c < d.len() && !(exists|r: int|
                0 <= r < nrows && c / (DISPLAY_WIDTH as int) == #[trigger] line_of(y0, r)) ==> draw_sprite(d, hit, ram, i, x0, y0, nrows).0[c]
                == d[c],
        forall|r: int, col: int|
            0 <= r < nrows && 0 <= col < 8 && sprite_bit(ram[i + r], col)
                ==> #[trigger] draw_sprite(d, hit, ram, i, x0, y0, nrows).0[sprite_cell(
                x0,
                y0,
                r,
                col,
            )] == !d[sprite_cell(x0, y0, r, col)],
        draw_sprite(d, hit, ram, i, x0, y0, nrows).1 == (hit || exists|r: int, col: int|
            0 <= r < nrows && 0 <= col < 8 && sprite_bit(ram[i + r], col) && d[sprite_cell(
                x0,
                y0,
                r,
                col,
            )]),
    decreases nrows,
{
    if nrows > 0 {
        lemma_draw_sprite_exact(d, hit, ram, i, x0, y0, nrows - 1);
        let prev = draw_sprite(d, hit, ram, i, x0, y0, nrows - 1);
        let res = draw_sprite(d, hit, ram, i, x0, y0, nrows);
        let lr = nrows - 1;
        let b = ram[i + lr];
        let yl = (y0 + lr) % (DISPLAY_HEIGHT as int);
        lemma_draw_row_exact(prev.0, prev.1, b, x0, yl, 8);
        assert(res.0 == draw_row(prev.0, prev.1, b, x0, yl, 8).0);
        assert(res.1 == draw_row(prev.0, prev.1, b, x0, yl, 8).1);
        // The last row's line differs from every earlier row's line.
        assert forall|r: int| 0 <= r < lr implies #[trigger] line_of(y0, r) != yl by {
            lemma_mod_distinct(y0, r, lr, DISPLAY_HEIGHT as int);
        }
        // Cells on line yl were untouched before the last row.
        assert forall|c: int|
            0 <= c < d.len() && c / (DISPLAY_WIDTH as int) == yl implies prev.0[c] == d[c] by {
            assert(!(exists|r: int|
                0 <= r < lr && c / (DISPLAY_WIDTH as int) == #[trigger] line_of(y0, r)));
        }
        // Frame: untouched lines keep their value.
        assert forall|c: int|
            0 <= c < d.len() && !(exists|r: int|
                0 <= r < nrows && c / (DISPLAY_WIDTH as int) == #[trigger] line_of(y0, r)) implies res.0[c] == d[c] by {
            assert(!(exists|r: int|
                0 <= r < lr && c / (DISPLAY_WIDTH as int) == #[trigger] line_of(y0, r))) by {
                if exists|r: int|
                    0 <= r < lr && c / (DISPLAY_WIDTH as int) == #[trigger] line_of(y0, r) {
                    let r = choose|r: int|
                        0 <= r < lr && c / (DISPLAY_WIDTH as int) == #[trigger] line_of(y0, r);
                    assert(0 <= r < nrows && c / (DISPLAY_WIDTH as int) == #[trigger] line_of(y0, r));
                }
            }
            assert(c / (DISPLAY_WIDTH as int) != yl) by {
                assert(!(0 <= lr < nrows && c / (DISPLAY_WIDTH as int) == line_of(y0, lr)));
            }
            assert(!(exists|col: int|
                0 <= col < 8 && sprite_bit(b, col) && cell_at(x0, yl, col) == c)) by {
                if exists|col: int|
                    0 <= col < 8 && sprite_bit(b, col) && cell_at(x0, yl, col) == c {
                    let col = choose|col: int|
                        0 <= col < 8 && sprite_bit(b, col) && cell_at(x0, yl, col) == c;
                    lemma_cell_line(x0, yl, col);
                }
            }
        }
        // Exact toggle for every set bit of every row.
        assert forall|r: int, col: int|
            0 <= r < nrows && 0 <= col < 8 && sprite_bit(ram[i + r], col)
                implies #[trigger] res.0[sprite_cell(x0, y0, r, col)] == !d[sprite_cell(
                x0,
                y0,
                r,
                col,
            )] by {
            let yr = line_of(y0, r);
            let c = sprite_cell(x0, y0, r, col);
            lemma_cell_line(x0, yr, col);
            if r == lr {
                assert(res.0[c] == !prev.0[c]);
                assert(prev.0[c] == d[c]);
            } else {
                assert(prev.0[c] == !d[c]);
                assert(yr != yl);
                assert(!(exists|col2: int|
                    0 <= col2 < 8 && sprite_bit(b, col2) && cell_at(x0, yl, col2) == c)) by {
                    if exists|col2: int|
                        0 <= col2 < 8 && sprite_bit(b, col2) && cell_at(x0, yl, col2) == c {
                        let col2 = choose|col2: int|
                            0 <= col2 < 8 && sprite_bit(b, col2) && cell_at(x0, yl, col2) == c;
                        lemma_cell_line(x0, yl, col2);
                    }
                }
                assert(res.0[c] == prev.0[c]);
            }
        }
        // Collision accumulator.
        assert(res.1 == (hit || exists|r: int, col: int|
            0 <= r < nrows && 0 <= col < 8 && sprite_bit(ram[i + r], col) && d[sprite_cell(
                x0,
                y0,
                r,
                col,
            )])) by {
            if res.1 {
                if prev.1 {
                    if !hit {
                        let (wr, wc) = choose|wr: int, wc: int|
                            0 <= wr < lr && 0 <= wc < 8 && sprite_bit(ram[i + wr], wc)
                                && d[sprite_cell(x0, y0, wr, wc)];
                        assert(0 <= wr < nrows && 0 <= wc < 8 && sprite_bit(ram[i + wr], wc)
                            && d[sprite_cell(x0, y0, wr, wc)]);
                    }
                } else {
                    let wc = choose|wc: int|
                        0 <= wc < 8 && sprite_bit(b, wc) && prev.0[cell_at(x0, yl, wc)];
                    lemma_cell_line(x0, yl, wc);
                    assert(prev.0[cell_at(x0, yl, wc)] == d[cell_at(x0, yl, wc)]);
                    assert(0 <= lr < nrows && 0 <= wc < 8 && sprite_bit(ram[i + lr], wc)
                        && d[sprite_cell(x0, y0, lr, wc)]);
                }
            }
            if hit || exists|r: int, col: int|
                0 <= r < nrows && 0 <= col < 8 && sprite_bit(ram[i + r], col) && d[sprite_cell(
                    x0,
                    y0,
                    r,
                    col,
                )] {
                if !hit {
                    let (wr, wc) = choose|wr: int, wc: int|
                        0 <= wr < nrows && 0 <= wc < 8 && sprite_bit(ram[i + wr], wc)
                            && d[sprite_cell(x0, y0, wr, wc)];
                    if wr < lr {
                        assert(0 <= wr < lr && 0 <= wc < 8 && sprite_bit(ram[i + wr], wc)
                            && d[sprite_cell(x0, y0, wr, wc)]);
                        assert(prev.1);
                    } else {
                        let c = sprite_cell(x0, y0, lr, wc);
                        lemma_cell_line(x0, yl, wc);
                        assert(prev.0[c] == d[c]);
                        assert(0 <= wc < 8 && sprite_bit(b, wc) && prev.0[cell_at(x0, yl, wc)]);
                    }
                }
            }
        }
    }
}

/// A sprite row that ends with the collision accumulator clear started with
/// it clear and turned no lit cell off.
proof fn lemma_draw_row_monotone(d: Seq<bool>, hit: bool, b: u8, x0: int, y: int, ncols: int)
    requires
        d.len() == DISPLAY_WIDTH * DISPLAY_HEIGHT,
        0 <= x0,
        0 <= y < DISPLAY_HEIGHT,
    ensures
        draw_row(d, hit, b, x0, y, ncols).0.len() == d.len(),
        !draw_row(d, hit, b, x0, y, ncols).1 ==> !hit && forall|c: int|
            0 <= c < d.len() && d[c] ==> draw_row(d, hit, b, x0, y, ncols).0[c],
    decreases ncols,
{
    if ncols > 0 {
        lemma_draw_row_monotone(d, hit, b, x0, y, ncols - 1);
    }
}

/// A sprite blit that ends with the collision accumulator clear started
/// with it clear and turned no lit cell off.
proof fn lemma_draw_sprite_monotone(
    d: Seq<bool>,
    hit: bool,
    ram: Seq<u8>,
    i: int,
    x0: int,
    y0: int,
    nrows: int,
)
    requires
        d.len() == DISPLAY_WIDTH * DISPLAY_HEIGHT,
        0 <= x0,
        0 <= y0,
    ensures
        draw_sprite(d, hit, ram, i, x0, y0, nrows).0.len() == d.len(),
        !draw_sprite(d, hit, ram, i, x0, y0, nrows).1 ==> !hit && forall|c: int|
            0 <= c < d.len() && d[c] ==> draw_sprite(d, hit, ram, i, x0, y0, nrows).0[c],
    decreases nrows,
{
    if nrows > 0 {
        lemma_draw_sprite_monotone(d, hit, ram, i, x0, y0, nrows - 1);
        let prev = draw_sprite(d, hit, ram, i, x0, y0, nrows - 1);
        lemma_draw_row_monotone(
            prev.0,
            prev.1,
            ram[i + nrows - 1],
            x0,
            (y0 + nrows - 1) % (DISPLAY_HEIGHT as int),
            8,
        );
    }
}

/// Law: a draw wraps its coordinates (by construction of the cells it
/// touches) and sets the flag register to 1 exactly when at least one
/// previously lit cell was toggled off during that single draw, else to 0.
pub proof fn lemma_draw_collision_flag(s: Chip, x: int, y: int, n: int)
    requires
        s.wf(),
        0 <= x < NUM_REGISTERS,
        0 <= y < NUM_REGISTERS,
        0 <= n < 16,
        spec_draw(s, x, y, n).1 is Ok,
    ensures
        spec_draw(s, x, y, n).0.regs[15] == 1 <==> exists|c: int|
            0 <= c < s.display.len() && s.display[c] && !spec_draw(s, x, y, n).0.display[c],
        spec_draw(s, x, y, n).0.regs[15] == 1 || spec_draw(s, x, y, n).0.regs[15] == 0,
{
    let x0 = s.regs[x] as int;
    let y0 = s.regs[y] as int;
    let i = s.ireg as int;
    let blit = draw_sprite(s.display, false, s.ram, i, x0, y0, n);
    lemma_draw_sprite_exact(s.display, false, s.ram, i, x0, y0, n);
    if blit.1 {
        let (wr, wc) = choose|wr: int, wc: int|
            0 <= wr < n && 0 <= wc < 8 && sprite_bit(s.ram[i + wr], wc) && s.display[sprite_cell(
                x0,
                y0,
                wr,
                wc,
            )];
        let c = sprite_cell(x0, y0, wr, wc);
        lemma_cell_line(x0, line_of(y0, wr), wc);
        assert(0 <= c < s.display.len() && s.display[c] && !spec_draw(s, x, y, n).0.display[c]);
    } else {
        lemma_draw_sprite_monotone(s.display, false, s.ram, i, x0, y0, n);
        if exists|c: int|
            0 <= c < s.display.len() && s.display[c] && !spec_draw(s, x, y, n).0.display[c] {
            let c = choose|c: int|
                0 <= c < s.display.len() && s.display[c] && !spec_draw(s, x, y, n).0.display[c];
            assert(blit.0[c]);
        }
    }
}

} // verus!
