//! Sprite drawing: XOR compositing onto the framebuffer with wrap-around
//! coordinates and collision detection.
//!
//! A sprite is `n` consecutive memory bytes; each byte is one row of eight
//! pixel bits, most significant bit leftmost.  Every bit is XORed onto the
//! cell at `((vx + col) mod width, (vy + row) mod height)`; a collision is a
//! cell that goes from lit to unlit.

use vstd::prelude::*;

use crate::cpu::exec::step;
use crate::cpu::instructions::Instruction;
use crate::cpu::{
    mem_addr, Cpu, MachineView, FLAG_REGISTER, MEMORY_SIZE, NUM_REGISTERS, SCREEN_HEIGHT,
    SCREEN_WIDTH,
};

verus! {

/// Whether bit `col` (0 = leftmost) of a sprite row byte is set.
pub open spec fn sprite_bit(byte: u8, col: int) -> bool {
    (byte >> ((7 - col) as u8)) & 1 == 1
}

/// The framebuffer after XORing the first `ncols` bits of one sprite row
/// byte onto row `py` starting at column `vx mod width`, paired with whether
/// any of those bits erased a lit cell.
pub open spec fn draw_byte_cols(fb: Seq<bool>, byte: u8, vx: int, py: int, ncols: int) -> (
    Seq<bool>,
    bool,
)
    decreases ncols,
{
    if ncols <= 0 {
        (fb, false)
    } else {
        let r = draw_byte_cols(fb, byte, vx, py, ncols - 1);
        let col = ncols - 1;
        let px = (vx + col) % (SCREEN_WIDTH as int);
        let cell = py * (SCREEN_WIDTH as int) + px;
        let bit = sprite_bit(byte, col);
        let prev = r.0[cell];
        (r.0.update(cell, prev != bit), r.1 || (bit && prev))
    }
}

/// The framebuffer after drawing the first `nrows` rows of the sprite at
/// memory address `index` to `(vx mod width, vy mod height)`, paired with
/// whether any drawn bit erased a lit cell.
pub open spec fn draw_sprite_rows(
    fb: Seq<bool>,
    memory: Seq<u8>,
    index: int,
    vx: int,
    vy: int,
    nrows: int,
) -> (Seq<bool>, bool)
    decreases nrows,
{
    if nrows <= 0 {
        (fb, false)
    } else {
        let r = draw_sprite_rows(fb, memory, index, vx, vy, nrows - 1);
        let row = nrows - 1;
        let byte = memory[mem_addr(index + row)];
        let py = (vy + row) % (SCREEN_HEIGHT as int);
        let d = draw_byte_cols(r.0, byte, vx, py, 8);
        (d.0, r.1 || d.1)
    }
}

/// Drawing one row byte does not change the framebuffer's size.
pub proof fn lemma_draw_byte_cols_len(fb: Seq<bool>, byte: u8, vx: int, py: int, ncols: int)
    requires
        fb.len() == SCREEN_WIDTH * SCREEN_HEIGHT,
        0 <= py < SCREEN_HEIGHT,
    ensures
        draw_byte_cols(fb, byte, vx, py, ncols).0.len() == fb.len(),
    decreases ncols,
{
    if ncols > 0 {
        lemma_draw_byte_cols_len(fb, byte, vx, py, ncols - 1);
    }
}

/// Drawing a sprite does not change the framebuffer's size.
pub proof fn lemma_draw_sprite_rows_len(
    fb: Seq<bool>,
    memory: Seq<u8>,
    index: int,
    vx: int,
    vy: int,
    nrows: int,
)
    requires
        fb.len() == SCREEN_WIDTH * SCREEN_HEIGHT,
    ensures
        draw_sprite_rows(fb, memory, index, vx, vy, nrows).0.len() == fb.len(),
    decreases nrows,
{
    if nrows > 0 {
        lemma_draw_sprite_rows_len(fb, memory, index, vx, vy, nrows - 1);
        let r = draw_sprite_rows(fb, memory, index, vx, vy, nrows - 1);
        let byte = memory[mem_addr(index + (nrows - 1))];
        let py = (vy + (nrows - 1)) % (SCREEN_HEIGHT as int);
        lemma_draw_byte_cols_len(r.0, byte, vx, py, 8);
    }
}

/// The sprite column that lands on screen column `px` when the sprite
/// starts at column `vx`: the offset of `px` from `vx`, wrapped.
pub open spec fn col_of(vx: int, px: int) -> int {
    (px - vx) % (SCREEN_WIDTH as int)
}

/// The sprite row that lands on screen row `py` when the sprite starts at
/// row `vy`: the offset of `py` from `vy`, wrapped.
pub open spec fn row_of(vy: int, py: int) -> int {
    (py - vy) % (SCREEN_HEIGHT as int)
}

/// Wrapping an offset and taking the offset back are inverse:
/// `((base + c) % m - base) % m == c`.
proof fn lemma_wrap_inverse(base: int, c: int, m: int)
    requires
        0 < m,
        0 <= c < m,
    ensures
        ((base + c) % m - base) % m == c,
{
    let q = (base + c) / m;
    vstd::arithmetic::div_mod::lemma_fundamental_div_mod(base + c, m);
    assert((base + c) % m - base == m * (-q) + c) by {
        assert(base + c == m * q + (base + c) % m);
        assert(m * (-q) == -(m * q)) by (nonlinear_arith);
    }
    vstd::arithmetic::div_mod::lemma_mod_multiples_vanish(-q, c, m);
    vstd::arithmetic::div_mod::lemma_small_mod(c as nat, m as nat);
}

/// A wrapped offset leads back to the screen position it came from:
/// `(base + (px - base) % m) % m == px`.
proof fn lemma_wrap_cancel(base: int, px: int, m: int)
    requires
        0 < m,
        0 <= px < m,
    ensures
        (base + (px - base) % m) % m == px,
{
    let q = (px - base) / m;
    vstd::arithmetic::div_mod::lemma_fundamental_div_mod(px - base, m);
    assert(base + (px - base) % m == m * (-q) + px) by {
        assert(px - base == m * q + (px - base) % m);
        assert(m * (-q) == -(m * q)) by (nonlinear_arith);
    }
    vstd::arithmetic::div_mod::lemma_mod_multiples_vanish(-q, px, m);
    vstd::arithmetic::div_mod::lemma_small_mod(px as nat, m as nat);
}

/// What drawing one sprite row byte does, cell by cell: exactly the cells
/// of row `py` under one of the first `ncols` sprite columns are XORed with
/// their sprite bit, and a collision is reported exactly when some drawn
/// bit is set over a lit cell.
pub proof fn lemma_draw_byte_cols_pointwise(fb: Seq<bool>, byte: u8, vx: int, py: int, ncols: int)
    requires
        fb.len() == SCREEN_WIDTH * SCREEN_HEIGHT,
        0 <= py < SCREEN_HEIGHT,
        0 <= vx,
        0 <= ncols <= 8,
    ensures
        forall|p: int|
            0 <= p < fb.len() ==> #[trigger] draw_byte_cols(fb, byte, vx, py, ncols).0[p] == (if p
                / (SCREEN_WIDTH as int) == py && col_of(vx, p % (SCREEN_WIDTH as int)) < ncols {
                fb[p] != sprite_bit(byte, col_of(vx, p % (SCREEN_WIDTH as int)))
            } else {
                fb[p]
            }),
        draw_byte_cols(fb, byte, vx, py, ncols).1 == exists|c: int|
            0 <= c < ncols && #[trigger] sprite_bit(byte, c) && fb[py * (SCREEN_WIDTH as int) + (vx
                + c) % (SCREEN_WIDTH as int)],
    decreases ncols,
{
    broadcast use vstd::arithmetic::div_mod::lemma_mod_division_less_than_divisor;

    let w = SCREEN_WIDTH as int;
    if ncols > 0 {
        lemma_draw_byte_cols_pointwise(fb, byte, vx, py, ncols - 1);
        lemma_draw_byte_cols_len(fb, byte, vx, py, ncols - 1);
        let r = draw_byte_cols(fb, byte, vx, py, ncols - 1);
        let d = draw_byte_cols(fb, byte, vx, py, ncols);
        let col = ncols - 1;
        let px = (vx + col) % w;
        let cell = py * w + px;
        vstd::arithmetic::div_mod::lemma_fundamental_div_mod_converse_mod(cell, w, py, px);
        vstd::arithmetic::div_mod::lemma_fundamental_div_mod_converse_div(cell, w, py, px);
        lemma_wrap_inverse(vx, col, w);
        assert(col_of(vx, px) == col);
        assert(0 <= cell < fb.len());
        assert(d.0 == r.0.update(cell, r.0[cell] != sprite_bit(byte, col)));
        assert(r.0[cell] == fb[cell]);
        assert forall|p: int| 0 <= p < fb.len() implies #[trigger] d.0[p] == (if p / w == py
            && col_of(vx, p % w) < ncols {
            fb[p] != sprite_bit(byte, col_of(vx, p % w))
        } else {
            fb[p]
        }) by {
            if p != cell {
                assert(d.0[p] == r.0[p]);
                if p / w == py && col_of(vx, p % w) == col {
                    lemma_wrap_cancel(vx, p % w, w);
                    vstd::arithmetic::div_mod::lemma_fundamental_div_mod(p, w);
                    assert(p == py * w + p % w);
                    assert(p % w == px);
                    assert(false);
                }
            }
        }
        assert(d.1 == (r.1 || (sprite_bit(byte, col) && fb[cell])));
        if d.1 {
            if r.1 {
                let c = choose|c: int|
                    0 <= c < ncols - 1 && #[trigger] sprite_bit(byte, c) && fb[py * w + (vx + c)
                        % w];
                assert(0 <= c < ncols && sprite_bit(byte, c) && fb[py * w + (vx + c) % w]);
            } else {
                assert(sprite_bit(byte, col) && fb[py * w + (vx + col) % w]);
            }
        }
        if exists|c: int|
            0 <= c < ncols && #[trigger] sprite_bit(byte, c) && fb[py * w + (vx + c) % w] {
            let c = choose|c: int|
                0 <= c < ncols && #[trigger] sprite_bit(byte, c) && fb[py * w + (vx + c) % w];
            if c < ncols - 1 {
                assert(r.1);
            } else {
                assert(c == col);
                assert(fb[cell]);
            }
            assert(d.1);
        }
    }
}

/// What drawing a sprite does, cell by cell: exactly the cells under the
/// sprite's first `nrows` rows and eight columns are XORed with their
/// sprite bit, and a collision is reported exactly when some drawn bit is
/// set over a lit cell.
pub proof fn lemma_draw_sprite_rows_pointwise(
    fb: Seq<bool>,
    memory: Seq<u8>,
    index: int,
    vx: int,
    vy: int,
    nrows: int,
)
    requires
        fb.len() == SCREEN_WIDTH * SCREEN_HEIGHT,
        memory.len() == MEMORY_SIZE,
        0 <= index,
        0 <= vx,
        0 <= vy,
        0 <= nrows <= SCREEN_HEIGHT,
    ensures
        forall|p: int|
            0 <= p < fb.len() ==> #[trigger] draw_sprite_rows(fb, memory, index, vx, vy, nrows).0[p]
                == (if row_of(vy, p / (SCREEN_WIDTH as int)) < nrows && col_of(
                vx,
                p % (SCREEN_WIDTH as int),
            ) < 8 {
                fb[p] != sprite_bit(
                    memory[mem_addr(index + row_of(vy, p / (SCREEN_WIDTH as int)))],
                    col_of(vx, p % (SCREEN_WIDTH as int)),
                )
            } else {
                fb[p]
            }),
        draw_sprite_rows(fb, memory, index, vx, vy, nrows).1 == exists|r2: int, c: int|
            0 <= r2 < nrows && 0 <= c < 8 && #[trigger] sprite_bit(memory[mem_addr(index + r2)], c)
                && fb[((vy + r2) % (SCREEN_HEIGHT as int)) * (SCREEN_WIDTH as int) + (vx + c) % (
            SCREEN_WIDTH as int)],
    decreases nrows,
{
    broadcast use vstd::arithmetic::div_mod::lemma_mod_division_less_than_divisor;

    let w = SCREEN_WIDTH as int;
    let h = SCREEN_HEIGHT as int;
    if nrows > 0 {
        lemma_draw_sprite_rows_pointwise(fb, memory, index, vx, vy, nrows - 1);
        lemma_draw_sprite_rows_len(fb, memory, index, vx, vy, nrows - 1);
        let r = draw_sprite_rows(fb, memory, index, vx, vy, nrows - 1);
        let d = draw_sprite_rows(fb, memory, index, vx, vy, nrows);
        let row = nrows - 1;
        let byte = memory[mem_addr(index + row)];
        let py = (vy + row) % h;
        lemma_wrap_inverse(vy, row, h);
        assert(row_of(vy, py) == row);
        lemma_draw_byte_cols_pointwise(r.0, byte, vx, py, 8);
        let dc = draw_byte_cols(r.0, byte, vx, py, 8);
        assert(d.0 == dc.0 && d.1 == (r.1 || dc.1));
        // Cells of row `py` are untouched by the earlier rows.
        assert forall|p: int| 0 <= p < fb.len() && p / w == py implies r.0[p] == fb[p] by {
            if row_of(vy, p / w) < nrows - 1 {
                assert(false);
            }
        }
        assert forall|p: int| 0 <= p < fb.len() implies #[trigger] d.0[p] == (if row_of(vy, p / w)
            < nrows && col_of(vx, p % w) < 8 {
            fb[p] != sprite_bit(memory[mem_addr(index + row_of(vy, p / w))], col_of(vx, p % w))
        } else {
            fb[p]
        }) by {
            if p / w == py {
                assert(row_of(vy, p / w) == row);
                if col_of(vx, p % w) < 8 {
                    assert(d.0[p] == (r.0[p] != sprite_bit(byte, col_of(vx, p % w))));
                    assert(r.0[p] == fb[p]);
                } else {
                    assert(d.0[p] == r.0[p]);
                    assert(r.0[p] == fb[p]);
                }
            } else {
                assert(d.0[p] == r.0[p]);
                if row_of(vy, p / w) == row {
                    lemma_wrap_cancel(vy, p / w, h);
                    assert(p / w == py);
                    assert(false);
                }
            }
        }
        // Collision: combine the earlier rows' collisions with this row's.
        if d.1 {
            if r.1 {
                let (r2, c) = choose|r2: int, c: int|
                    0 <= r2 < nrows - 1 && 0 <= c < 8 && #[trigger] sprite_bit(
                        memory[mem_addr(index + r2)],
                        c,
                    ) && fb[((vy + r2) % h) * w + (vx + c) % w];
                assert(0 <= r2 < nrows && 0 <= c < 8 && sprite_bit(memory[mem_addr(index + r2)], c)
                    && fb[((vy + r2) % h) * w + (vx + c) % w]);
            } else {
                let c = choose|c: int|
                    0 <= c < 8 && #[trigger] sprite_bit(byte, c) && r.0[py * w + (vx + c) % w];
                let cell = py * w + (vx + c) % w;
                vstd::arithmetic::div_mod::lemma_fundamental_div_mod_converse_div(
                    cell,
                    w,
                    py,
                    (vx + c) % w,
                );
                assert(cell / w == py);
                assert(r.0[cell] == fb[cell]);
                assert(0 <= row < nrows && 0 <= c < 8 && sprite_bit(memory[mem_addr(index + row)], c)
                    && fb[((vy + row) % h) * w + (vx + c) % w]);
            }
        }
        if exists|r2: int, c: int|
            0 <= r2 < nrows && 0 <= c < 8 && #[trigger] sprite_bit(memory[mem_addr(index + r2)], c)
                && fb[((vy + r2) % h) * w + (vx + c) % w] {
            let (r2, c) = choose|r2: int, c: int|
                0 <= r2 < nrows && 0 <= c < 8 && #[trigger] sprite_bit(memory[mem_addr(index + r2)], c)
                    && fb[((vy + r2) % h) * w + (vx + c) % w];
            if r2 < nrows - 1 {
                assert(r.1);
            } else {
                assert(r2 == row);
                let cell = py * w + (vx + c) % w;
                vstd::arithmetic::div_mod::lemma_fundamental_div_mod_converse_div(
                    cell,
                    w,
                    py,
                    (vx + c) % w,
                );
                assert(cell / w == py);
                assert(r.0[cell] == fb[cell]);
                assert(sprite_bit(byte, c) && r.0[cell]);
                assert(dc.1);
            }
            assert(d.1);
        }
    }
}

/// Drawing the same sprite twice at the same coordinates toggles every
/// touched cell back to its original state, and — provided some sprite bit
/// lands on a cell that was unlit to begin with — the second draw reports a
/// collision: the framebuffer is restored and the flag register reads 1.
///
/// The coordinate registers must not be the flag register, since both draws
/// overwrite it.
/// Drawing the same sprite twice onto a framebuffer restores it, and the
/// second draw collides exactly where the first draw lit a cell: with some
/// sprite bit set over an initially unlit cell, the second draw reports a
/// collision.
#[verifier::rlimit(100)]
proof fn lemma_draw_rows_twice(
    fb: Seq<bool>,
    memory: Seq<u8>,
    index: int,
    vx: int,
    vy: int,
    nr: int,
)
    requires
        fb.len() == SCREEN_WIDTH * SCREEN_HEIGHT,
        memory.len() == MEMORY_SIZE,
        0 <= index,
        0 <= vx,
        0 <= vy,
        0 <= nr <= SCREEN_HEIGHT,
        exists|r2: int, c: int|
            0 <= r2 < nr && 0 <= c < 8 && #[trigger] sprite_bit(memory[mem_addr(index + r2)], c)
                && !fb[((vy + r2) % (SCREEN_HEIGHT as int)) * (SCREEN_WIDTH as int) + (vx + c) % (
            SCREEN_WIDTH as int)],
    ensures
        ({
            let d1 = draw_sprite_rows(fb, memory, index, vx, vy, nr);
            let d2 = draw_sprite_rows(d1.0, memory, index, vx, vy, nr);
            &&& d2.0 == fb
            &&& d2.1
        }),
{
    let w = SCREEN_WIDTH as int;
    let h = SCREEN_HEIGHT as int;
    let d1 = draw_sprite_rows(fb, memory, index, vx, vy, nr);
    let d2 = draw_sprite_rows(d1.0, memory, index, vx, vy, nr);
    lemma_draw_sprite_rows_len(fb, memory, index, vx, vy, nr);
    lemma_draw_sprite_rows_len(d1.0, memory, index, vx, vy, nr);
    lemma_draw_sprite_rows_pointwise(fb, memory, index, vx, vy, nr);
    lemma_draw_sprite_rows_pointwise(d1.0, memory, index, vx, vy, nr);
    // Every cell is XORed with the same bit twice, or not at all.
    assert forall|p: int| 0 <= p < fb.len() implies #[trigger] d2.0[p] == fb[p] by {
        assert(d1.0[p] == (if row_of(vy, p / w) < nr && col_of(vx, p % w) < 8 {
            fb[p] != sprite_bit(memory[mem_addr(index + row_of(vy, p / w))], col_of(vx, p % w))
        } else {
            fb[p]
        }));
    }
    assert(d2.0 =~= fb);
    // The witness bit was drawn onto an unlit cell, so the first draw lit
    // it and the second draw erases it: a collision.
    let (r2, c) = choose|r2: int, c: int|
        0 <= r2 < nr && 0 <= c < 8 && #[trigger] sprite_bit(memory[mem_addr(index + r2)], c)
            && !fb[((vy + r2) % h) * w + (vx + c) % w];
    let py = (vy + r2) % h;
    let px = (vx + c) % w;
    let cell = py * w + px;
    broadcast use vstd::arithmetic::div_mod::lemma_mod_division_less_than_divisor;

    vstd::arithmetic::div_mod::lemma_fundamental_div_mod_converse_div(cell, w, py, px);
    vstd::arithmetic::div_mod::lemma_fundamental_div_mod_converse_mod(cell, w, py, px);
    lemma_wrap_inverse(vy, r2, h);
    lemma_wrap_inverse(vx, c, w);
    assert(row_of(vy, cell / w) == r2 && col_of(vx, cell % w) == c);
    assert(0 <= cell < fb.len());
    assert(d1.0[cell] == (fb[cell] != sprite_bit(memory[mem_addr(index + r2)], c)));
    assert(d1.0[cell]);
    assert(sprite_bit(memory[mem_addr(index + r2)], c) && d1.0[((vy + r2) % h) * w + (vx + c) % w]);
    assert(d2.1);
}

pub proof fn lemma_draw_twice(m: MachineView, x: usize, y: usize, n: u8, rnd: u8)
    requires
        m.wf(),
        x < NUM_REGISTERS,
        y < NUM_REGISTERS,
        x != FLAG_REGISTER,
        y != FLAG_REGISTER,
        n < 16,
        exists|r2: int, c: int|
            0 <= r2 < n && 0 <= c < 8 && #[trigger] sprite_bit(
                m.memory[mem_addr(m.index + r2)],
                c,
            ) && !m.pixels[((m.v[y as int] + r2) % (SCREEN_HEIGHT as int)) * (SCREEN_WIDTH as int)
                + (m.v[x as int] + c) % (SCREEN_WIDTH as int)],
    ensures
        ({
            let m1 = step(m, Instruction::DrawSprite(x, y, n), rnd).post;
            let m2 = step(m1, Instruction::DrawSprite(x, y, n), rnd).post;
            &&& m2.pixels == m.pixels
            &&& m2.v[FLAG_REGISTER as int] == 1
        }),
{
    let vx = m.v[x as int] as int;
    let vy = m.v[y as int] as int;
    let idx = m.index as int;
    let nr = n as int;
    let m1 = step(m, Instruction::DrawSprite(x, y, n), rnd).post;
    let m2 = step(m1, Instruction::DrawSprite(x, y, n), rnd).post;
    let d1 = draw_sprite_rows(m.pixels, m.memory, idx, vx, vy, nr);
    let d2 = draw_sprite_rows(d1.0, m.memory, idx, vx, vy, nr);
    assert(m1.pixels == d1.0);
    assert(m1.memory == m.memory && m1.index == m.index);
    assert(m1.v[x as int] == m.v[x as int] && m1.v[y as int] == m.v[y as int]);
    assert(m2.pixels == d2.0);
    lemma_draw_rows_twice(m.pixels, m.memory, idx, vx, vy, nr);
    assert(m2.v[FLAG_REGISTER as int] == 1);
}

impl Cpu {
    /// XORs the `n`-row sprite at the index register onto the framebuffer at
    /// `(vx mod width, vy mod height)` and reports whether any lit cell was
    /// erased.  Touches nothing but the framebuffer.
    pub fn draw_sprite(&mut self, vx: u8, vy: u8, n: u8) -> (collided: bool)
        requires
            old(self)@.wf(),
        ensures
            final(self)@ == (MachineView {
                pixels: draw_sprite_rows(
                    old(self)@.pixels,
                    old(self)@.memory,
                    old(self)@.index as int,
                    vx as int,
                    vy as int,
                    n as int,
                ).0,
                ..old(self)@
            }),
            collided == draw_sprite_rows(
                old(self)@.pixels,
                old(self)@.memory,
                old(self)@.index as int,
                vx as int,
                vy as int,
                n as int,
            ).1,
            final(self)@.wf(),
    {
        let ghost pre = self@;
        let mut collided = false;
        let n_rows: usize = n as usize;
        let mut row: usize = 0;
        while row < n_rows
            invariant
                pre.wf(),
                row <= n_rows,
                n_rows == n,
                self@ == (MachineView { pixels: self@.pixels, ..pre }),
                self@.pixels == draw_sprite_rows(
                    pre.pixels,
                    pre.memory,
                    pre.index as int,
                    vx as int,
                    vy as int,
                    row as int,
                ).0,
                collided == draw_sprite_rows(
                    pre.pixels,
                    pre.memory,
                    pre.index as int,
                    vx as int,
                    vy as int,
                    row as int,
                ).1,
                self@.pixels.len() == SCREEN_WIDTH * SCREEN_HEIGHT,
            decreases n_rows - row,
        {
            let byte: u8 = self.memory[((self.i as usize) + row) % MEMORY_SIZE];
            let py: usize = ((vy as usize) + row) % SCREEN_HEIGHT;
            let ghost fb_row = self@.pixels;
            let ghost coll_row = collided;
            let mut col: usize = 0;
            while col < 8
                invariant
                    col <= 8,
                    pre.wf(),
                    self@ == (MachineView { pixels: self@.pixels, ..pre }),
                    self@.pixels.len() == SCREEN_WIDTH * SCREEN_HEIGHT,
                    fb_row.len() == SCREEN_WIDTH * SCREEN_HEIGHT,
                    py == ((vy as int) + row) % (SCREEN_HEIGHT as int),
                    byte == pre.memory[mem_addr(pre.index + row)],
                    self@.pixels == draw_byte_cols(fb_row, byte, vx as int, py as int, col as int).0,
                    collided == (coll_row || draw_byte_cols(
                        fb_row,
                        byte,
                        vx as int,
                        py as int,
                        col as int,
                    ).1),
                decreases 8 - col,
            {
                let px: usize = ((vx as usize) + col) % SCREEN_WIDTH;
                let cell: usize = py * SCREEN_WIDTH + px;
                let sh: u8 = (7 - col) as u8;
                let bit: bool = ((byte >> sh) & 1) == 1;
                let prev: bool = self.pixels[cell];
                self.pixels.set(cell, prev != bit);
                if bit && prev {
                    collided = true;
                }
                proof {
                    assert(bit == sprite_bit(byte, col as int));
                    lemma_draw_byte_cols_len(fb_row, byte, vx as int, py as int, col as int);
                    assert(self@.pixels =~= draw_byte_cols(
                        fb_row,
                        byte,
                        vx as int,
                        py as int,
                        col as int + 1,
                    ).0);
                }
                col = col + 1;
            }
            proof {
                assert(self@.pixels =~= draw_sprite_rows(
                    pre.pixels,
                    pre.memory,
                    pre.index as int,
                    vx as int,
                    vy as int,
                    row as int + 1,
                ).0);
            }
            row = row + 1;
        }
        collided
    }
}

} // verus!
