//! Sprite drawing.
//!
//! A sprite is 8 pixels wide and up to 15 rows tall; each set bit is XORed
//! onto the framebuffer, with both coordinates wrapping around the screen
//! edges independently per pixel. The model is pointwise: a framebuffer cell
//! flips exactly when some set sprite bit lands on it, and a collision is
//! reported exactly when some set sprite bit lands on a lit cell.

use vstd::prelude::*;

verus! {

use vstd::arithmetic::div_mod::{
    lemma_fundamental_div_mod, lemma_mod_bound, lemma_mod_multiples_vanish, lemma_small_mod,
};
use crate::state::{EmuError, EmuView};

/// Whether bit `j` (counted from the leftmost, most significant bit) of a
/// sprite row is set.
pub open spec fn sprite_bit(row: u8, j: u8) -> bool {
    row & (0x80u8 >> j) != 0
}

/// `base + off`, wrapped into `[0, m)`; intended for `0 <= base < m` and
/// `0 <= off < m`.
pub open spec fn wrap_add(base: int, off: int, m: int) -> int {
    if base + off < m {
        base + off
    } else {
        base + off - m
    }
}

/// The framebuffer index hit by sprite bit `j` of sprite row `r`, for a
/// sprite drawn at wrapped coordinates `(xc, yc)`.
pub open spec fn pix_index(xc: int, yc: int, r: int, j: int) -> int {
    wrap_add(yc, r, 32) * 64 + wrap_add(xc, j, 64)
}

/// Whether sprite position `(r, j)` comes strictly before position
/// `(rl, jl)` in row-major drawing order.
pub open spec fn pair_before(r: int, j: int, rl: int, jl: int) -> bool {
    0 <= r && 0 <= j < 8 && (r < rl || (r == rl && j < jl))
}

/// Whether some set sprite bit at a position before `(rl, jl)` lands on
/// framebuffer index `idx`. The sprite rows start at memory address `i0`.
pub open spec fn covered_upto(
    ram: Seq<u8>,
    i0: int,
    xc: int,
    yc: int,
    rl: int,
    jl: int,
    idx: int,
) -> bool {
    exists|r: int, j: int|
        #![trigger pix_index(xc, yc, r, j)]
        pair_before(r, j, rl, jl) && sprite_bit(ram[i0 + r], j as u8) && pix_index(
            xc,
            yc,
            r,
            j,
        ) == idx
}

/// Whether some set sprite bit of the whole `n`-row sprite lands on
/// framebuffer index `idx`.
pub open spec fn covered(ram: Seq<u8>, i0: int, xc: int, yc: int, n: int, idx: int) -> bool {
    covered_upto(ram, i0, xc, yc, n, 0, idx)
}

/// Whether some set sprite bit at a position before `(rl, jl)` lands on a
/// cell that is lit in `screen`.
pub open spec fn flip_upto(
    ram: Seq<u8>,
    screen: Seq<bool>,
    i0: int,
    xc: int,
    yc: int,
    rl: int,
    jl: int,
) -> bool {
    exists|r: int, j: int|
        #![trigger pix_index(xc, yc, r, j)]
        pair_before(r, j, rl, jl) && sprite_bit(ram[i0 + r], j as u8) && screen[pix_index(
            xc,
            yc,
            r,
            j,
        )]
}

/// Whether drawing the whole `n`-row sprite turns some lit cell of `screen`
/// off: the collision that the draw instruction reports in VF.
pub open spec fn collision(
    ram: Seq<u8>,
    screen: Seq<bool>,
    i0: int,
    xc: int,
    yc: int,
    n: int,
) -> bool {
    flip_upto(ram, screen, i0, xc, yc, n, 0)
}

/// What the draw instruction does to a machine state whose program counter
/// has already advanced: reading `n` sprite rows at memory `i_reg` must stay
/// in memory; every covered cell flips; VF reports the collision.
pub open spec fn spec_draw(s: EmuView, x: u8, y: u8, n: u8) -> Result<EmuView, EmuError> {
    if n > 0 && s.i_reg + n > 4096 {
        Err(EmuError::AddressOutOfRange)
    } else {
        let xc = s.v_reg[x as int] as int % 64;
        let yc = s.v_reg[y as int] as int % 32;
        let i0 = s.i_reg as int;
        let flipped = collision(s.ram, s.screen, i0, xc, yc, n as int);
        Ok(
            EmuView {
                screen: Seq::new(
                    2048,
                    |idx: int| s.screen[idx] != covered(s.ram, i0, xc, yc, n as int, idx),
                ),
                v_reg: s.v_reg.update(15, if flipped { 1u8 } else { 0u8 }),
                ..s
            },
        )
    }
}

/// Wrapped addition agrees with the modulus the executable code computes.
proof fn lemma_mod_wrap(v: int, off: int, m: int)
    requires
        0 <= v,
        0 <= off < m,
        0 < m,
    ensures
        (v + off) % m == wrap_add(v % m, off, m),
        0 <= v % m < m,
{
    let c = v % m;
    lemma_mod_bound(v, m);
    lemma_fundamental_div_mod(v, m);
    assert(v + off == m * (v / m) + (c + off));
    lemma_mod_multiples_vanish(v / m, c + off, m);
    if c + off < m {
        lemma_small_mod((c + off) as nat, m as nat);
    } else {
        assert(c + off == m * 1 + (c + off - m));
        lemma_mod_multiples_vanish(1, c + off - m, m);
        lemma_small_mod((c + off - m) as nat, m as nat);
    }
}

/// Distinct sprite positions hit distinct framebuffer cells: the row offsets
/// stay below the screen height and the column offsets below the screen
/// width, so wrapping cannot make two positions collide.
proof fn lemma_pix_injective(xc: int, yc: int, r1: int, j1: int, r2: int, j2: int)
    requires
        0 <= xc < 64,
        0 <= yc < 32,
        0 <= r1 < 32,
        0 <= r2 < 32,
        0 <= j1 < 64,
        0 <= j2 < 64,
        pix_index(xc, yc, r1, j1) == pix_index(xc, yc, r2, j2),
    ensures
        r1 == r2,
        j1 == j2,
{
    assert(0 <= wrap_add(yc, r1, 32) < 32);
    assert(0 <= wrap_add(yc, r2, 32) < 32);
    assert(0 <= wrap_add(xc, j1, 64) < 64);
    assert(0 <= wrap_add(xc, j2, 64) < 64);
    assert(wrap_add(yc, r1, 32) == wrap_add(yc, r2, 32) && wrap_add(xc, j1, 64) == wrap_add(
        xc,
        j2,
        64,
    )) by (nonlinear_arith)
        requires
            0 <= wrap_add(yc, r1, 32) < 32,
            0 <= wrap_add(yc, r2, 32) < 32,
            0 <= wrap_add(xc, j1, 64) < 64,
            0 <= wrap_add(xc, j2, 64) < 64,
            wrap_add(yc, r1, 32) * 64 + wrap_add(xc, j1, 64) == wrap_add(yc, r2, 32) * 64
                + wrap_add(xc, j2, 64),
    ;
}

/// The sprite position `(r, j)` itself is never covered by the positions
/// drawn before it.
proof fn lemma_not_covered_self(ram: Seq<u8>, i0: int, xc: int, yc: int, r: int, j: int)
    requires
        0 <= xc < 64,
        0 <= yc < 32,
        0 <= r < 32,
        0 <= j < 8,
    ensures
        !covered_upto(ram, i0, xc, yc, r, j, pix_index(xc, yc, r, j)),
{
    let t = pix_index(xc, yc, r, j);
    if covered_upto(ram, i0, xc, yc, r, j, t) {
        let (r2, j2): (int, int) = choose|r2: int, j2: int|
            #![trigger pix_index(xc, yc, r2, j2)]
            pair_before(r2, j2, r, j) && sprite_bit(ram[i0 + r2], j2 as u8) && pix_index(
                xc,
                yc,
                r2,
                j2,
            ) == t;
        lemma_pix_injective(xc, yc, r2, j2, r, j);
        assert(false);
    }
}

/// Extending the drawing order by the single position `(r, j)` covers `idx`
/// exactly when the earlier positions do, or that position itself hits it.
proof fn lemma_covered_step(ram: Seq<u8>, i0: int, xc: int, yc: int, r: int, j: int, idx: int)
    requires
        0 <= j < 8,
    ensures
        covered_upto(ram, i0, xc, yc, r, j + 1, idx) == (covered_upto(ram, i0, xc, yc, r, j, idx)
            || (0 <= r && sprite_bit(ram[i0 + r], j as u8) && pix_index(xc, yc, r, j) == idx)),
{
    if covered_upto(ram, i0, xc, yc, r, j + 1, idx) {
        let (r2, j2): (int, int) = choose|r2: int, j2: int|
            #![trigger pix_index(xc, yc, r2, j2)]
            pair_before(r2, j2, r, j + 1) && sprite_bit(ram[i0 + r2], j2 as u8) && pix_index(
                xc,
                yc,
                r2,
                j2,
            ) == idx;
        if r2 == r && j2 == j {
        } else {
            assert(pair_before(r2, j2, r, j));
        }
    }
    if covered_upto(ram, i0, xc, yc, r, j, idx) {
        let (r2, j2): (int, int) = choose|r2: int, j2: int|
            #![trigger pix_index(xc, yc, r2, j2)]
            pair_before(r2, j2, r, j) && sprite_bit(ram[i0 + r2], j2 as u8) && pix_index(
                xc,
                yc,
                r2,
                j2,
            ) == idx;
        assert(pair_before(r2, j2, r, j + 1));
    }
    if 0 <= r && sprite_bit(ram[i0 + r], j as u8) && pix_index(xc, yc, r, j) == idx {
        assert(pair_before(r, j, r, j + 1));
    }
}

/// The flip counterpart of `lemma_covered_step`.
proof fn lemma_flip_step(
    ram: Seq<u8>,
    screen: Seq<bool>,
    i0: int,
    xc: int,
    yc: int,
    r: int,
    j: int,
)
    requires
        0 <= j < 8,
    ensures
        flip_upto(ram, screen, i0, xc, yc, r, j + 1) == (flip_upto(ram, screen, i0, xc, yc, r, j)
            || (0 <= r && sprite_bit(ram[i0 + r], j as u8) && screen[pix_index(xc, yc, r, j)])),
{
    if flip_upto(ram, screen, i0, xc, yc, r, j + 1) {
        let (r2, j2): (int, int) = choose|r2: int, j2: int|
            #![trigger pix_index(xc, yc, r2, j2)]
            pair_before(r2, j2, r, j + 1) && sprite_bit(ram[i0 + r2], j2 as u8) && screen[pix_index(
                xc,
                yc,
                r2,
                j2,
            )];
        if r2 == r && j2 == j {
        } else {
            assert(pair_before(r2, j2, r, j));
        }
    }
    if flip_upto(ram, screen, i0, xc, yc, r, j) {
        let (r2, j2): (int, int) = choose|r2: int, j2: int|
            #![trigger pix_index(xc, yc, r2, j2)]
            pair_before(r2, j2, r, j) && sprite_bit(ram[i0 + r2], j2 as u8) && screen[pix_index(
                xc,
                yc,
                r2,
                j2,
            )];
        assert(pair_before(r2, j2, r, j + 1));
    }
    if 0 <= r && sprite_bit(ram[i0 + r], j as u8) && screen[pix_index(xc, yc, r, j)] {
        assert(pair_before(r, j, r, j + 1));
    }
}

/// Finishing a row is the same as standing at the start of the next row.
proof fn lemma_covered_row_end(ram: Seq<u8>, i0: int, xc: int, yc: int, r: int, idx: int)
    ensures
        covered_upto(ram, i0, xc, yc, r, 8, idx) == covered_upto(ram, i0, xc, yc, r + 1, 0, idx),
{
    if covered_upto(ram, i0, xc, yc, r, 8, idx) {
        let (r2, j2): (int, int) = choose|r2: int, j2: int|
            #![trigger pix_index(xc, yc, r2, j2)]
            pair_before(r2, j2, r, 8) && sprite_bit(ram[i0 + r2], j2 as u8) && pix_index(
                xc,
                yc,
                r2,
                j2,
            ) == idx;
        assert(pair_before(r2, j2, r + 1, 0));
    }
    if covered_upto(ram, i0, xc, yc, r + 1, 0, idx) {
        let (r2, j2): (int, int) = choose|r2: int, j2: int|
            #![trigger pix_index(xc, yc, r2, j2)]
            pair_before(r2, j2, r + 1, 0) && sprite_bit(ram[i0 + r2], j2 as u8) && pix_index(
                xc,
                yc,
                r2,
                j2,
            ) == idx;
        assert(pair_before(r2, j2, r, 8));
    }
}

/// The flip counterpart of `lemma_covered_row_end`.
proof fn lemma_flip_row_end(
    ram: Seq<u8>,
    screen: Seq<bool>,
    i0: int,
    xc: int,
    yc: int,
    r: int,
)
    ensures
        flip_upto(ram, screen, i0, xc, yc, r, 8) == flip_upto(ram, screen, i0, xc, yc, r + 1, 0),
{
    if flip_upto(ram, screen, i0, xc, yc, r, 8) {
        let (r2, j2): (int, int) = choose|r2: int, j2: int|
            #![trigger pix_index(xc, yc, r2, j2)]
            pair_before(r2, j2, r, 8) && sprite_bit(ram[i0 + r2], j2 as u8) && screen[pix_index(
                xc,
                yc,
                r2,
                j2,
            )];
        assert(pair_before(r2, j2, r + 1, 0));
    }
    if flip_upto(ram, screen, i0, xc, yc, r + 1, 0) {
        let (r2, j2): (int, int) = choose|r2: int, j2: int|
            #![trigger pix_index(xc, yc, r2, j2)]
            pair_before(r2, j2, r + 1, 0) && sprite_bit(ram[i0 + r2], j2 as u8) && screen[pix_index(
                xc,
                yc,
                r2,
                j2,
            )];
        assert(pair_before(r2, j2, r, 8));
    }
}

/// Draws the `n`-row sprite stored at memory `i0` at raw coordinates
/// `(x0, y0)`, XORing set bits onto the framebuffer with per-pixel
/// wraparound; returns whether any lit cell was turned off.
pub(crate) fn draw_sprite(
    screen: &mut Vec<bool>,
    ram: &Vec<u8>,
    x0: u8,
    y0: u8,
    i0: u16,
    n: u8,
) -> (flipped: bool)
    requires
        old(screen)@.len() == 2048,
        ram@.len() == 4096,
        n < 16,
        n > 0 ==> i0 + n <= 4096,
    ensures
        final(screen)@ == Seq::new(
            2048,
            |idx: int| old(screen)@[idx] != covered(
                ram@,
                i0 as int,
                x0 as int % 64,
                y0 as int % 32,
                n as int,
                idx,
            ),
        ),
        flipped == collision(
            ram@,
            old(screen)@,
            i0 as int,
            x0 as int % 64,
            y0 as int % 32,
            n as int,
        ),
{
    let ghost xc = x0 as int % 64;
    let ghost yc = y0 as int % 32;
    let ghost screen0 = screen@;
    proof {
        lemma_mod_bound(x0 as int, 64);
        lemma_mod_bound(y0 as int, 32);
        assert(screen@ =~= Seq::new(
            2048,
            |idx: int| screen0[idx] != covered_upto(ram@, i0 as int, xc, yc, 0, 0, idx),
        ));
    }
    let mut flipped = false;
    let mut r: u8 = 0;
    while r < n
        invariant
            r <= n,
            n < 16,
            n > 0 ==> i0 + n <= 4096,
            ram@.len() == 4096,
            screen@.len() == 2048,
            screen0.len() == 2048,
            0 <= xc < 64,
            xc == x0 as int % 64,
            0 <= yc < 32,
            yc == y0 as int % 32,
            screen@ == Seq::new(
                2048,
                |idx: int| screen0[idx] != covered_upto(ram@, i0 as int, xc, yc, r as int, 0, idx),
            ),
            flipped == flip_upto(ram@, screen0, i0 as int, xc, yc, r as int, 0),
        decreases n - r,
    {
        let row: u8 = ram[(i0 + r as u16) as usize];
        let mut j: u8 = 0;
        while j < 8
            invariant
                j <= 8,
                r < n,
                n < 16,
                i0 + n <= 4096,
                ram@.len() == 4096,
                screen@.len() == 2048,
                screen0.len() == 2048,
                0 <= xc < 64,
                xc == x0 as int % 64,
                0 <= yc < 32,
                yc == y0 as int % 32,
                row == ram@[i0 as int + r as int],
                screen@ == Seq::new(
                    2048,
                    |idx: int| screen0[idx] != covered_upto(
                        ram@,
                        i0 as int,
                        xc,
                        yc,
                        r as int,
                        j as int,
                        idx,
                    ),
                ),
                flipped == flip_upto(ram@, screen0, i0 as int, xc, yc, r as int, j as int),
            decreases 8 - j,
        {
            if row & (0x80u8 >> j) != 0 {
                let col = ((x0 as u16 + j as u16) % 64) as usize;
                let rowpix = ((y0 as u16 + r as u16) % 32) as usize;
                let t = rowpix * 64 + col;
                proof {
                    lemma_mod_wrap(x0 as int, j as int, 64);
                    lemma_mod_wrap(y0 as int, r as int, 32);
                    assert(t == pix_index(xc, yc, r as int, j as int));
                    assert(0 <= wrap_add(yc, r as int, 32) < 32);
                    assert(0 <= wrap_add(xc, j as int, 64) < 64);
                    assert(t < 2048);
                    lemma_not_covered_self(ram@, i0 as int, xc, yc, r as int, j as int);
                    assert(screen@[t as int] == (screen0[t as int] != covered_upto(
                        ram@,
                        i0 as int,
                        xc,
                        yc,
                        r as int,
                        j as int,
                        t as int,
                    )));
                    assert(screen@[t as int] == screen0[t as int]);
                }
                let cur = screen[t];
                flipped = flipped || cur;
                screen[t] = !cur;
                proof {
                    let ghost tt = t as int;
                    assert forall|idx: int| 0 <= idx < 2048 implies screen@[idx] == (screen0[idx]
                        != covered_upto(
                        ram@,
                        i0 as int,
                        xc,
                        yc,
                        r as int,
                        j as int + 1,
                        idx,
                    )) by {
                        lemma_covered_step(ram@, i0 as int, xc, yc, r as int, j as int, idx);
                        if idx != tt {
                            assert(pix_index(xc, yc, r as int, j as int) == tt);
                        }
                    }
                    assert(screen@ =~= Seq::new(
                        2048,
                        |idx: int| screen0[idx] != covered_upto(
                            ram@,
                            i0 as int,
                            xc,
                            yc,
                            r as int,
                            j as int + 1,
                            idx,
                        ),
                    ));
                    lemma_flip_step(ram@, screen0, i0 as int, xc, yc, r as int, j as int);
                }
            } else {
                proof {
                    assert forall|idx: int| 0 <= idx < 2048 implies screen@[idx] == (screen0[idx]
                        != covered_upto(
                        ram@,
                        i0 as int,
                        xc,
                        yc,
                        r as int,
                        j as int + 1,
                        idx,
                    )) by {
                        lemma_covered_step(ram@, i0 as int, xc, yc, r as int, j as int, idx);
                    }
                    assert(screen@ =~= Seq::new(
                        2048,
                        |idx: int| screen0[idx] != covered_upto(
                            ram@,
                            i0 as int,
                            xc,
                            yc,
                            r as int,
                            j as int + 1,
                            idx,
                        ),
                    ));
                    lemma_flip_step(ram@, screen0, i0 as int, xc, yc, r as int, j as int);
                }
            }
            j += 1;
        }
        proof {
            assert forall|idx: int| 0 <= idx < 2048 implies screen@[idx] == (screen0[idx]
                != covered_upto(ram@, i0 as int, xc, yc, r as int + 1, 0, idx)) by {
                lemma_covered_row_end(ram@, i0 as int, xc, yc, r as int, idx);
            }
            assert(screen@ =~= Seq::new(
                2048,
                |idx: int| screen0[idx] != covered_upto(
                    ram@,
                    i0 as int,
                    xc,
                    yc,
                    r as int + 1,
                    0,
                    idx,
                ),
            ));
            lemma_flip_row_end(ram@, screen0, i0 as int, xc, yc, r as int);
        }
        r += 1;
    }
    flipped
}

} // verus!
