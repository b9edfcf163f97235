//! Laws of the instruction set, stated over the specification functions the
//! operation contracts use and proved once and for all inputs: the
//! carry/borrow arithmetic of register add and subtract, the XOR round trip
//! and collision flag of sprite drawing, the net effect of the wait-for-key
//! busy-wait, and the agreement of `reset` with fresh construction.

use vstd::prelude::*;

verus! {

use vstd::arithmetic::div_mod::{lemma_mod_bound, lemma_mod_multiples_vanish, lemma_small_mod};
use crate::draw::{collision, covered, pair_before, pix_index, spec_draw, sprite_bit};
use crate::exec::{
    first_pressed, spec_exec, spec_fetched_op, spec_step, u8_wrap_add, u8_wrap_sub,
};
use crate::instr::{spec_decode, Instr};
use crate::state::{initial_view, spec_load, EmuError, EmuView};

/// 8-bit wrapped addition is addition modulo 256.
proof fn lemma_wrap_add_is_mod(a: u8, b: u8)
    ensures
        u8_wrap_add(a, b) == (a + b) % 256,
{
    if a + b > 255 {
        assert(a + b == 256 * 1 + (a + b - 256));
        lemma_mod_multiples_vanish(1, a + b - 256, 256);
        lemma_small_mod((a + b - 256) as nat, 256 as nat);
    } else {
        lemma_small_mod((a + b) as nat, 256 as nat);
    }
}

/// 8-bit wrapped subtraction is subtraction modulo 256.
proof fn lemma_wrap_sub_is_mod(a: u8, b: u8)
    ensures
        u8_wrap_sub(a, b) == (a - b) % 256,
{
    if a - b < 0 {
        assert(a - b == 256 * (-1) + (a - b + 256));
        lemma_mod_multiples_vanish(-1, a - b + 256, 256);
        lemma_small_mod((a - b + 256) as nat, 256 as nat);
    } else {
        lemma_small_mod((a - b) as nat, 256 as nat);
    }
}

/// Law: for all 8-bit values, register add produces `(a + b) mod 256` and
/// sets VF to 1 exactly when the true sum exceeds 255. When VF itself is the
/// destination register, the flag overwrites the sum.
pub proof fn lemma_add_reg_law(s: EmuView, x: u8, y: u8, rnd: u8)
    requires
        s.wf(),
        x < 16,
        y < 16,
    ensures
        ({
            let a = s.v_reg[x as int];
            let b = s.v_reg[y as int];
            spec_exec(s, Instr::AddReg(x, y), rnd) matches Ok(t) && t.v_reg[15] == (if a + b > 255 {
                1u8
            } else {
                0u8
            }) && (x != 15 ==> t.v_reg[x as int] == (a + b) % 256)
        }),
{
    lemma_wrap_add_is_mod(s.v_reg[x as int], s.v_reg[y as int]);
}

/// Law: for all 8-bit values, register subtract `VX - VY` produces
/// `(a - b) mod 256` and sets VF to 1 exactly when no borrow occurred, that
/// is when `a >= b`. When VF itself is the destination register, the flag
/// overwrites the difference.
pub proof fn lemma_sub_reg_law(s: EmuView, x: u8, y: u8, rnd: u8)
    requires
        s.wf(),
        x < 16,
        y < 16,
    ensures
        ({
            let a = s.v_reg[x as int];
            let b = s.v_reg[y as int];
            spec_exec(s, Instr::SubReg(x, y), rnd) matches Ok(t) && t.v_reg[15] == (if a >= b {
                1u8
            } else {
                0u8
            }) && (x != 15 ==> t.v_reg[x as int] == (a - b) % 256)
        }),
{
    lemma_wrap_sub_is_mod(s.v_reg[x as int], s.v_reg[y as int]);
}

/// A sprite row with no set bits is exactly the zero byte.
proof fn lemma_zero_row_has_no_bit(row: u8)
    requires
        row == 0,
    ensures
        forall|j: u8| !sprite_bit(row, j),
{
    assert forall|j: u8| !sprite_bit(row, j) by {
        assert((0u8 & (0x80u8 >> j)) == 0) by (bit_vector);
    }
}

/// A nonzero sprite row has a set bit among its eight positions.
proof fn lemma_nonzero_row_has_bit(row: u8)
    requires
        row != 0,
    ensures
        exists|j: u8| j < 8 && #[trigger] sprite_bit(row, j),
{
    assert(row & (0x80u8 >> 0u8) != 0 || row & (0x80u8 >> 1u8) != 0 || row & (0x80u8 >> 2u8) != 0
        || row & (0x80u8 >> 3u8) != 0 || row & (0x80u8 >> 4u8) != 0 || row & (0x80u8 >> 5u8) != 0
        || row & (0x80u8 >> 6u8) != 0 || row & (0x80u8 >> 7u8) != 0) by (bit_vector)
        requires
            row != 0u8,
    ;
    if row & (0x80u8 >> 0u8) != 0 {
        assert(sprite_bit(row, 0));
    } else if row & (0x80u8 >> 1u8) != 0 {
        assert(sprite_bit(row, 1));
    } else if row & (0x80u8 >> 2u8) != 0 {
        assert(sprite_bit(row, 2));
    } else if row & (0x80u8 >> 3u8) != 0 {
        assert(sprite_bit(row, 3));
    } else if row & (0x80u8 >> 4u8) != 0 {
        assert(sprite_bit(row, 4));
    } else if row & (0x80u8 >> 5u8) != 0 {
        assert(sprite_bit(row, 5));
    } else if row & (0x80u8 >> 6u8) != 0 {
        assert(sprite_bit(row, 6));
    } else {
        assert(sprite_bit(row, 7));
    }
}

/// Law: on a blank framebuffer, drawing one 8x1 sprite reports no collision,
/// and drawing the same sprite again at the same coordinates clears every
/// pixel the first draw set — the framebuffer is blank again — while the
/// second draw reports a collision exactly when the sprite row has any set
/// bit. The coordinate registers must not be VF, which the draw itself
/// overwrites.
pub proof fn lemma_draw_twice_restores(s: EmuView, x: u8, y: u8, rnd: u8)
    requires
        s.wf(),
        x < 16,
        y < 16,
        x != 15,
        y != 15,
        s.i_reg < 4096,
        forall|i: int| 0 <= i < 2048 ==> !s.screen[i],
    ensures
        ({
            let r1 = spec_exec(s, Instr::Draw(x, y, 1), rnd);
            r1 matches Ok(s1) && s1.v_reg[15] == 0u8 && (spec_exec(
                s1,
                Instr::Draw(x, y, 1),
                rnd,
            ) matches Ok(s2) && s2.screen == s.screen && s2.v_reg[15] == (
            if s.ram[s.i_reg as int] == 0u8 {
                0u8
            } else {
                1u8
            }))
        }),
{
    let i0 = s.i_reg as int;
    let row = s.ram[i0];
    let xc = s.v_reg[x as int] as int % 64;
    let yc = s.v_reg[y as int] as int % 32;
    lemma_mod_bound(s.v_reg[x as int] as int, 64);
    lemma_mod_bound(s.v_reg[y as int] as int, 32);

    // First draw: no lit cell anywhere, so no collision.
    assert(!collision(s.ram, s.screen, i0, xc, yc, 1)) by {
        if collision(s.ram, s.screen, i0, xc, yc, 1) {
            let (r, j): (int, int) = choose|r: int, j: int|
                #![trigger pix_index(xc, yc, r, j)]
                pair_before(r, j, 1, 0) && sprite_bit(s.ram[i0 + r], j as u8) && s.screen[pix_index(
                    xc,
                    yc,
                    r,
                    j,
                )];
            assert(0 <= pix_index(xc, yc, r, j) < 2048);
            assert(false);
        }
    }
    let s1 = spec_draw(s, x, y, 1)->Ok_0;
    assert(s1.v_reg[15] == 0u8);
    assert(s1.v_reg[x as int] == s.v_reg[x as int]);
    assert(s1.v_reg[y as int] == s.v_reg[y as int]);

    // Second draw sees the same sprite at the same coordinates.
    let s2 = spec_draw(s1, x, y, 1)->Ok_0;

    // The XOR of the same coverage twice restores every cell.
    assert forall|idx: int| 0 <= idx < 2048 implies s2.screen[idx] == s.screen[idx] by {
        assert(s1.screen[idx] == (s.screen[idx] != covered(s.ram, i0, xc, yc, 1, idx)));
    }
    assert(s2.screen =~= s.screen);

    // The second draw collides exactly when the row has a set bit.
    if row == 0 {
        assert(!collision(s.ram, s1.screen, i0, xc, yc, 1)) by {
            lemma_zero_row_has_no_bit(row);
            if collision(s.ram, s1.screen, i0, xc, yc, 1) {
                let (r, j): (int, int) = choose|r: int, j: int|
                    #![trigger pix_index(xc, yc, r, j)]
                    pair_before(r, j, 1, 0) && sprite_bit(s.ram[i0 + r], j as u8)
                        && s1.screen[pix_index(xc, yc, r, j)];
                assert(sprite_bit(row, j as u8));
                assert(false);
            }
        }
    } else {
        lemma_nonzero_row_has_bit(row);
        let jw = choose|j: u8| j < 8 && #[trigger] sprite_bit(row, j);
        let t = pix_index(xc, yc, 0, jw as int);
        assert(0 <= t < 2048);
        assert(pair_before(0, jw as int, 1, 0));
        assert(covered(s.ram, i0, xc, yc, 1, t));
        assert(s1.screen[t] == (s.screen[t] != covered(s.ram, i0, xc, yc, 1, t)));
        assert(s1.screen[t]);
        assert(collision(s.ram, s1.screen, i0, xc, yc, 1));
    }
}

/// Characterizes the key scan: it yields the least pressed index at or after
/// `k`, or nothing when no key at or after `k` is pressed.
proof fn lemma_first_pressed_props(keys: Seq<bool>, k: int)
    requires
        keys.len() == 16,
        0 <= k <= 16,
    ensures
        match first_pressed(keys, k) {
            Some(i) => k <= i < 16 && keys[i as int] && (forall|m: int| k <= m < i ==> !keys[m]),
            None => forall|m: int| k <= m < 16 ==> !keys[m],
        },
    decreases 16 - k,
{
    if k < 16 && !keys[k] {
        lemma_first_pressed_props(keys, k + 1);
    }
}

/// Law: executing the wait-for-key instruction with no key pressed leaves
/// the machine exactly as it was — the program counter advances by two at
/// the fetch and retreats by two at the execute — so repeated steps retry
/// the same instruction with no net change.
pub proof fn lemma_wait_key_no_press(s: EmuView, x: u8, rnd: u8)
    requires
        s.wf(),
        s.pc + 1 < 4096,
        spec_decode(spec_fetched_op(s)) == Some(Instr::WaitKey(x)),
        forall|k: int| 0 <= k < 16 ==> !s.keys[k],
    ensures
        spec_step(s, rnd) == Ok::<EmuView, EmuError>(s),
{
    lemma_first_pressed_props(s.keys, 0);
    let s2 = EmuView { pc: (s.pc + 2) as u16, ..s };
    assert(spec_exec(s2, Instr::WaitKey(x), rnd) == Ok::<EmuView, EmuError>(
        EmuView { pc: (s2.pc - 2) as u16, ..s2 },
    ));
    assert(EmuView { pc: (s2.pc - 2) as u16, ..s2 } =~= s);
}

/// Law: executing the wait-for-key instruction with some key pressed stores
/// the least pressed key index in the destination register and advances the
/// program counter past the instruction; nothing else changes.
pub proof fn lemma_wait_key_press(s: EmuView, x: u8, k: u8, rnd: u8)
    requires
        s.wf(),
        s.pc + 1 < 4096,
        spec_decode(spec_fetched_op(s)) == Some(Instr::WaitKey(x)),
        x < 16,
        k < 16,
        s.keys[k as int],
    ensures
        ({
            let found = first_pressed(s.keys, 0);
            found matches Some(ki) && ki < 16 && s.keys[ki as int] && (forall|m: int|
                0 <= m < ki ==> !s.keys[m]) && spec_step(s, rnd) == Ok::<EmuView, EmuError>(
                EmuView {
                    pc: (s.pc + 2) as u16,
                    v_reg: s.v_reg.update(x as int, ki),
                    ..s
                },
            )
        }),
{
    lemma_first_pressed_props(s.keys, 0);
    if first_pressed(s.keys, 0) is None {
        assert(!s.keys[k as int]);
    }
}

/// Law: `reset` followed by `load` reaches the same machine state as fresh
/// construction followed by `load` of the same bytes: both operations start
/// from the one initial view, and loading is a function of that view and the
/// bytes alone.
pub proof fn lemma_reset_load_matches_fresh_load(a: EmuView, b: EmuView, data: Seq<u8>)
    requires
        a == initial_view(),
        b == initial_view(),
    ensures
        spec_load(a, data) == spec_load(b, data),
{
}

} // verus!
