//! The fetch-decode-execute step.
//!
//! [`spec_step`] is the mathematical state transition of one `tick`: fetch
//! the big-endian instruction at the program counter, advance the counter by
//! two, decode, and apply the instruction's semantics. The only input beyond
//! the machine state is the one random byte the random-mask instruction
//! consumes; [`Emu::tick_with`] takes it as an argument and is verified for
//! every value of it, and [`Emu::tick`] draws it from the generator.

use vstd::prelude::*;

verus! {

use crate::draw::{draw_sprite, spec_draw};
use crate::instr::{decode, instr_wf, lemma_decode_bounds, spec_decode, Instr};
use crate::state::{blank_screen, filled, EmuError, EmuView, Emu, SCREEN_HEIGHT, SCREEN_WIDTH};

/// 8-bit addition wrapped modulo 256.
pub open spec fn u8_wrap_add(a: u8, b: u8) -> u8 {
    if a + b > 255 {
        (a + b - 256) as u8
    } else {
        (a + b) as u8
    }
}

/// 8-bit subtraction wrapped modulo 256.
pub open spec fn u8_wrap_sub(a: u8, b: u8) -> u8 {
    if a - b < 0 {
        (a - b + 256) as u8
    } else {
        (a - b) as u8
    }
}

/// 16-bit addition wrapped modulo 65536.
pub open spec fn u16_wrap_add(a: u16, b: u16) -> u16 {
    if a + b > 65535 {
        (a + b - 65536) as u16
    } else {
        (a + b) as u16
    }
}

/// The state with one register replaced.
pub open spec fn upd_reg(s: EmuView, x: int, val: u8) -> EmuView {
    EmuView { v_reg: s.v_reg.update(x, val), ..s }
}

/// The state with the program counter advanced over one more instruction
/// when `cond` holds: the conditional skip.
pub open spec fn skip_if(s: EmuView, cond: bool) -> EmuView {
    if cond {
        EmuView { pc: (s.pc + 2) as u16, ..s }
    } else {
        s
    }
}

/// The index of the first pressed key at or after `k`, scanning the 16 keys
/// in index order.
pub open spec fn first_pressed(keys: Seq<bool>, k: int) -> Option<u8>
    decreases 16 - k,
{
    if k < 0 || k >= 16 {
        None
    } else if keys[k] {
        Some(k as u8)
    } else {
        first_pressed(keys, k + 1)
    }
}

/// What one decoded instruction does to a machine state whose program
/// counter has already advanced past it. `rnd` is the byte the random-mask
/// instruction consumes; no other instruction reads it.
pub open spec fn spec_exec(s: EmuView, ins: Instr, rnd: u8) -> Result<EmuView, EmuError> {
    match ins {
        Instr::Nop => Ok(s),
        Instr::ClearScreen => Ok(EmuView { screen: blank_screen(), ..s }),
        Instr::Ret => if s.sp == 0 {
            Err(EmuError::StackUnderflow)
        } else {
            Ok(EmuView { sp: (s.sp - 1) as u16, pc: s.stack[s.sp - 1], ..s })
        },
        Instr::Jump(nnn) => Ok(EmuView { pc: nnn, ..s }),
        Instr::Call(nnn) => if s.sp >= 16 {
            Err(EmuError::StackOverflow)
        } else {
            Ok(
                EmuView {
                    stack: s.stack.update(s.sp as int, s.pc),
                    sp: (s.sp + 1) as u16,
                    pc: nnn,
                    ..s
                },
            )
        },
        Instr::SkipEqImm(x, nn) => Ok(skip_if(s, s.v_reg[x as int] == nn)),
        Instr::SkipNeImm(x, nn) => Ok(skip_if(s, s.v_reg[x as int] != nn)),
        Instr::SkipEqReg(x, y) => Ok(skip_if(s, s.v_reg[x as int] == s.v_reg[y as int])),
        Instr::LoadImm(x, nn) => Ok(upd_reg(s, x as int, nn)),
        Instr::AddImm(x, nn) => Ok(upd_reg(s, x as int, u8_wrap_add(s.v_reg[x as int], nn))),
        Instr::CopyReg(x, y) => Ok(upd_reg(s, x as int, s.v_reg[y as int])),
        Instr::OrReg(x, y) => Ok(upd_reg(s, x as int, s.v_reg[x as int] | s.v_reg[y as int])),
        Instr::AndReg(x, y) => Ok(upd_reg(s, x as int, s.v_reg[x as int] & s.v_reg[y as int])),
        Instr::XorReg(x, y) => Ok(upd_reg(s, x as int, s.v_reg[x as int] ^ s.v_reg[y as int])),
        Instr::AddReg(x, y) => Ok(
            EmuView {
                v_reg: s.v_reg.update(
                    x as int,
                    u8_wrap_add(s.v_reg[x as int], s.v_reg[y as int]),
                ).update(15, if s.v_reg[x as int] + s.v_reg[y as int] > 255 { 1u8 } else { 0u8 }),
                ..s
            },
        ),
        Instr::SubReg(x, y) => Ok(
            EmuView {
                v_reg: s.v_reg.update(
                    x as int,
                    u8_wrap_sub(s.v_reg[x as int], s.v_reg[y as int]),
                ).update(15, if s.v_reg[x as int] >= s.v_reg[y as int] { 1u8 } else { 0u8 }),
                ..s
            },
        ),
        Instr::ShiftRight(x) => Ok(
            EmuView {
                v_reg: s.v_reg.update(x as int, s.v_reg[x as int] >> 1u8).update(
                    15,
                    s.v_reg[x as int] & 1,
                ),
                ..s
            },
        ),
        Instr::SubFrom(x, y) => Ok(
            EmuView {
                v_reg: s.v_reg.update(
                    x as int,
                    u8_wrap_sub(s.v_reg[y as int], s.v_reg[x as int]),
                ).update(15, if s.v_reg[y as int] >= s.v_reg[x as int] { 1u8 } else { 0u8 }),
                ..s
            },
        ),
        Instr::ShiftLeft(x) => Ok(
            EmuView {
                v_reg: s.v_reg.update(x as int, s.v_reg[x as int] << 1u8).update(
                    15,
                    (s.v_reg[x as int] >> 7u8) & 1,
                ),
                ..s
            },
        ),
        Instr::SkipNeReg(x, y) => Ok(skip_if(s, s.v_reg[x as int] != s.v_reg[y as int])),
        Instr::SetIndex(nnn) => Ok(EmuView { i_reg: nnn, ..s }),
        Instr::JumpV0(nnn) => Ok(EmuView { pc: (s.v_reg[0] + nnn) as u16, ..s }),
        Instr::RandomMask(x, nn) => Ok(upd_reg(s, x as int, rnd & nn)),
        Instr::Draw(x, y, n) => spec_draw(s, x, y, n),
        Instr::SkipKeyPressed(x) => if s.v_reg[x as int] >= 16 {
            Err(EmuError::AddressOutOfRange)
        } else {
            Ok(skip_if(s, s.keys[s.v_reg[x as int] as int]))
        },
        Instr::SkipKeyNotPressed(x) => if s.v_reg[x as int] >= 16 {
            Err(EmuError::AddressOutOfRange)
        } else {
            Ok(skip_if(s, !s.keys[s.v_reg[x as int] as int]))
        },
        Instr::ReadDelay(x) => Ok(upd_reg(s, x as int, s.dt)),
        Instr::WaitKey(x) => (match first_pressed(s.keys, 0) {
            Some(k) => Ok(upd_reg(s, x as int, k)),
            None => Ok(EmuView { pc: (s.pc - 2) as u16, ..s }),
        }),
        Instr::SetDelay(x) => Ok(EmuView { dt: s.v_reg[x as int], ..s }),
        Instr::SetSound(x) => Ok(EmuView { st: s.v_reg[x as int], ..s }),
        Instr::AddIndex(x) => Ok(
            EmuView { i_reg: u16_wrap_add(s.i_reg, s.v_reg[x as int] as u16), ..s },
        ),
        Instr::FontAddr(x) => Ok(EmuView { i_reg: (s.v_reg[x as int] * 5) as u16, ..s }),
        Instr::StoreBcd(x) => if s.i_reg + 2 >= 4096 {
            Err(EmuError::AddressOutOfRange)
        } else {
            Ok(
                EmuView {
                    ram: s.ram.update(s.i_reg as int, ((s.v_reg[x as int] as int) / 100) as u8)
                        .update(s.i_reg + 1, (((s.v_reg[x as int] as int) / 10) % 10) as u8)
                        .update(s.i_reg + 2, ((s.v_reg[x as int] as int) % 10) as u8),
                    ..s
                },
            )
        },
        Instr::StoreRegs(x) => if s.i_reg + x >= 4096 {
            Err(EmuError::AddressOutOfRange)
        } else {
            Ok(
                EmuView {
                    ram: Seq::new(
                        4096,
                        |a: int| if s.i_reg <= a <= s.i_reg + x {
                            s.v_reg[a - s.i_reg]
                        } else {
                            s.ram[a]
                        },
                    ),
                    ..s
                },
            )
        },
        Instr::LoadRegs(x) => if s.i_reg + x >= 4096 {
            Err(EmuError::AddressOutOfRange)
        } else {
            Ok(
                EmuView {
                    v_reg: Seq::new(
                        16,
                        |k: int| if k <= x { s.ram[s.i_reg + k] } else { s.v_reg[k] },
                    ),
                    ..s
                },
            )
        },
    }
}

/// The big-endian 16-bit instruction at the program counter.
pub open spec fn spec_fetched_op(s: EmuView) -> u16 {
    ((s.ram[s.pc as int] as u16) << 8u16) | (s.ram[s.pc as int + 1] as u16)
}

/// One whole fetch-decode-execute step: fetching must stay in memory, an
/// unmatched instruction is a decode failure carrying the raw value and the
/// fetch-time program counter, and everything else is `spec_exec` applied to
/// the state with the program counter advanced.
pub open spec fn spec_step(s: EmuView, rnd: u8) -> Result<EmuView, EmuError> {
    if s.pc + 1 >= 4096 {
        Err(EmuError::AddressOutOfRange)
    } else {
        let op = spec_fetched_op(s);
        match spec_decode(op) {
            None => Err(EmuError::InvalidInstruction { op, pc: s.pc }),
            Some(ins) => spec_exec(EmuView { pc: (s.pc + 2) as u16, ..s }, ins, rnd),
        }
    }
}

/// Relies on rand::random: draws one uniformly distributed byte from the
/// thread-local generator. Nothing is promised of the value; callers state
/// what holds whatever byte comes back.
#[verifier::external_body]
fn random_byte() -> u8 {
    rand::random()
}

/// Scans the 16 keys in index order for the first pressed one.
fn first_pressed_key(keys: &Vec<bool>) -> (r: Option<u8>)
    requires
        keys@.len() == 16,
    ensures
        r == first_pressed(keys@, 0),
{
    let mut i: usize = 0;
    while i < 16
        invariant
            i <= 16,
            keys@.len() == 16,
            first_pressed(keys@, 0) == first_pressed(keys@, i as int),
        decreases 16 - i,
    {
        if keys[i] {
            return Some(i as u8);
        }
        i += 1;
    }
    None
}

/// Stores registers V0 through VX into memory starting at `i0`.
fn store_regs(ram: &mut Vec<u8>, v_reg: &Vec<u8>, i0: u16, x: u8)
    requires
        old(ram)@.len() == 4096,
        v_reg@.len() == 16,
        x < 16,
        i0 + x < 4096,
    ensures
        final(ram)@ == Seq::new(
            4096,
            |a: int| if i0 <= a <= i0 + x { v_reg@[a - i0] } else { old(ram)@[a] },
        ),
{
    let mut k: usize = 0;
    while k < x as usize + 1
        invariant
            k <= x + 1,
            x < 16,
            i0 + x < 4096,
            ram@.len() == 4096,
            v_reg@.len() == 16,
            forall|a: int| i0 <= a < i0 + k ==> ram@[a] == v_reg@[a - i0],
            forall|a: int| 0 <= a < 4096 && !(i0 <= a < i0 + k) ==> ram@[a] == old(ram)@[a],
        decreases x + 1 - k,
    {
        ram[i0 as usize + k] = v_reg[k];
        k += 1;
    }
    proof {
        assert(ram@ =~= Seq::new(
            4096,
            |a: int| if i0 <= a <= i0 + x { v_reg@[a - i0] } else { old(ram)@[a] },
        ));
    }
}

/// Loads registers V0 through VX from memory starting at `i0`.
fn load_regs(v_reg: &mut Vec<u8>, ram: &Vec<u8>, i0: u16, x: u8)
    requires
        old(v_reg)@.len() == 16,
        ram@.len() == 4096,
        x < 16,
        i0 + x < 4096,
    ensures
        final(v_reg)@ == Seq::new(
            16,
            |k: int| if k <= x { ram@[i0 + k] } else { old(v_reg)@[k] },
        ),
{
    let mut k: usize = 0;
    while k < x as usize + 1
        invariant
            k <= x + 1,
            x < 16,
            i0 + x < 4096,
            ram@.len() == 4096,
            v_reg@.len() == 16,
            forall|a: int| 0 <= a < k ==> v_reg@[a] == ram@[i0 + a],
            forall|a: int| k <= a < 16 ==> v_reg@[a] == old(v_reg)@[a],
        decreases x + 1 - k,
    {
        v_reg[k] = ram[i0 as usize + k];
        k += 1;
    }
    proof {
        assert(v_reg@ =~= Seq::new(
            16,
            |k: int| if k <= x { ram@[i0 + k] } else { old(v_reg)@[k] },
        ));
    }
}

impl Emu {
    /// Applies one decoded instruction; the program counter has already
    /// advanced past it. On failure the state is unchanged.
    pub(crate) fn execute_instr(&mut self, ins: Instr, rnd: u8) -> (r: Result<(), EmuError>)
        requires
            old(self)@.wf(),
            instr_wf(ins),
            2 <= old(self)@.pc <= 4096,
        ensures
            final(self)@.wf(),
            match r {
                Ok(()) => spec_exec(old(self)@, ins, rnd) == Ok::<EmuView, EmuError>(
                    final(self)@,
                ),
                Err(e) => spec_exec(old(self)@, ins, rnd) == Err::<EmuView, EmuError>(e)
                    && final(self)@ == old(self)@,
            },
    {
        match ins {
            Instr::Nop => Ok(()),
            Instr::ClearScreen => {
                self.screen = filled(SCREEN_WIDTH * SCREEN_HEIGHT, false);
                Ok(())
            },
            Instr::Ret => {
                let addr = match self.pop() {
                    Ok(a) => a,
                    Err(e) => {
                        return Err(e);
                    },
                };
                self.pc = addr;
                Ok(())
            },
            Instr::Jump(nnn) => {
                self.pc = nnn;
                Ok(())
            },
            Instr::Call(nnn) => {
                let pc0 = self.pc;
                match self.push(pc0) {
                    Ok(()) => {
                        self.pc = nnn;
                        Ok(())
                    },
                    Err(e) => Err(e),
                }
            },
            Instr::SkipEqImm(x, nn) => {
                if self.v_reg[x as usize] == nn {
                    self.pc = self.pc + 2;
                }
                Ok(())
            },
            Instr::SkipNeImm(x, nn) => {
                if self.v_reg[x as usize] != nn {
                    self.pc = self.pc + 2;
                }
                Ok(())
            },
            Instr::SkipEqReg(x, y) => {
                if self.v_reg[x as usize] == self.v_reg[y as usize] {
                    self.pc = self.pc + 2;
                }
                Ok(())
            },
            Instr::LoadImm(x, nn) => {
                self.v_reg[x as usize] = nn;
                Ok(())
            },
            Instr::AddImm(x, nn) => {
                self.v_reg[x as usize] = self.v_reg[x as usize].wrapping_add(nn);
                Ok(())
            },
            Instr::CopyReg(x, y) => {
                self.v_reg[x as usize] = self.v_reg[y as usize];
                Ok(())
            },
            Instr::OrReg(x, y) => {
                self.v_reg[x as usize] = self.v_reg[x as usize] | self.v_reg[y as usize];
                Ok(())
            },
            Instr::AndReg(x, y) => {
                self.v_reg[x as usize] = self.v_reg[x as usize] & self.v_reg[y as usize];
                Ok(())
            },
            Instr::XorReg(x, y) => {
                self.v_reg[x as usize] = self.v_reg[x as usize] ^ self.v_reg[y as usize];
                Ok(())
            },
            Instr::AddReg(x, y) => {
                let vx = self.v_reg[x as usize];
                let vy = self.v_reg[y as usize];
                let new_vf: u8 = if (vx as u16) + (vy as u16) > 255 {
                    1
                } else {
                    0
                };
                self.v_reg[x as usize] = vx.wrapping_add(vy);
                self.v_reg[0xF] = new_vf;
                Ok(())
            },
            Instr::SubReg(x, y) => {
                let vx = self.v_reg[x as usize];
                let vy = self.v_reg[y as usize];
                let new_vf: u8 = if vx >= vy {
                    1
                } else {
                    0
                };
                self.v_reg[x as usize] = vx.wrapping_sub(vy);
                self.v_reg[0xF] = new_vf;
                Ok(())
            },
            Instr::ShiftRight(x) => {
                let vx = self.v_reg[x as usize];
                self.v_reg[x as usize] = vx >> 1u8;
                self.v_reg[0xF] = vx & 1;
                Ok(())
            },
            Instr::SubFrom(x, y) => {
                let vx = self.v_reg[x as usize];
                let vy = self.v_reg[y as usize];
                let new_vf: u8 = if vy >= vx {
                    1
                } else {
                    0
                };
                self.v_reg[x as usize] = vy.wrapping_sub(vx);
                self.v_reg[0xF] = new_vf;
                Ok(())
            },
            Instr::ShiftLeft(x) => {
                let vx = self.v_reg[x as usize];
                self.v_reg[x as usize] = vx << 1u8;
                self.v_reg[0xF] = (vx >> 7u8) & 1;
                Ok(())
            },
            Instr::SkipNeReg(x, y) => {
                if self.v_reg[x as usize] != self.v_reg[y as usize] {
                    self.pc = self.pc + 2;
                }
                Ok(())
            },
            Instr::SetIndex(nnn) => {
                self.i_reg = nnn;
                Ok(())
            },
            Instr::JumpV0(nnn) => {
                self.pc = (self.v_reg[0] as u16) + nnn;
                Ok(())
            },
            Instr::RandomMask(x, nn) => {
                self.v_reg[x as usize] = rnd & nn;
                Ok(())
            },
            Instr::Draw(x, y, n) => {
                if n > 0 && (self.i_reg as usize) + (n as usize) > 4096 {
                    return Err(EmuError::AddressOutOfRange);
                }
                let x0 = self.v_reg[x as usize];
                let y0 = self.v_reg[y as usize];
                let i0 = self.i_reg;
                let flipped = draw_sprite(&mut self.screen, &self.ram, x0, y0, i0, n);
                self.v_reg[0xF] = if flipped {
                    1
                } else {
                    0
                };
                proof {
                    assert(self@.screen =~= spec_draw(old(self)@, x, y, n)->Ok_0.screen);
                    assert(self@ =~= spec_draw(old(self)@, x, y, n)->Ok_0);
                }
                Ok(())
            },
            Instr::SkipKeyPressed(x) => {
                let vx = self.v_reg[x as usize];
                if vx >= 16 {
                    return Err(EmuError::AddressOutOfRange);
                }
                if self.keys[vx as usize] {
                    self.pc = self.pc + 2;
                }
                Ok(())
            },
            Instr::SkipKeyNotPressed(x) => {
                let vx = self.v_reg[x as usize];
                if vx >= 16 {
                    return Err(EmuError::AddressOutOfRange);
                }
                if !self.keys[vx as usize] {
                    self.pc = self.pc + 2;
                }
                Ok(())
            },
            Instr::ReadDelay(x) => {
                self.v_reg[x as usize] = self.dt;
                Ok(())
            },
            Instr::WaitKey(x) => {
                match first_pressed_key(&self.keys) {
                    Some(k) => {
                        self.v_reg[x as usize] = k;
                    },
                    None => {
                        self.pc = self.pc - 2;
                    },
                }
                Ok(())
            },
            Instr::SetDelay(x) => {
                self.dt = self.v_reg[x as usize];
                Ok(())
            },
            Instr::SetSound(x) => {
                self.st = self.v_reg[x as usize];
                Ok(())
            },
            Instr::AddIndex(x) => {
                let vx = self.v_reg[x as usize];
                self.i_reg = self.i_reg.wrapping_add(vx as u16);
                Ok(())
            },
            Instr::FontAddr(x) => {
                let c = self.v_reg[x as usize] as u16;
                self.i_reg = c * 5;
                Ok(())
            },
            Instr::StoreBcd(x) => {
                if (self.i_reg as usize) + 2 >= 4096 {
                    return Err(EmuError::AddressOutOfRange);
                }
                let v = self.v_reg[x as usize];
                let i = self.i_reg as usize;
                self.ram[i] = v / 100;
                self.ram[i + 1] = (v / 10) % 10;
                self.ram[i + 2] = v % 10;
                Ok(())
            },
            Instr::StoreRegs(x) => {
                if (self.i_reg as usize) + (x as usize) >= 4096 {
                    return Err(EmuError::AddressOutOfRange);
                }
                store_regs(&mut self.ram, &self.v_reg, self.i_reg, x);
                proof {
                    assert(self@ =~= spec_exec(old(self)@, ins, rnd)->Ok_0);
                }
                Ok(())
            },
            Instr::LoadRegs(x) => {
                if (self.i_reg as usize) + (x as usize) >= 4096 {
                    return Err(EmuError::AddressOutOfRange);
                }
                load_regs(&mut self.v_reg, &self.ram, self.i_reg, x);
                proof {
                    assert(self@ =~= spec_exec(old(self)@, ins, rnd)->Ok_0);
                }
                Ok(())
            },
        }
    }

    /// One fetch-decode-execute step driven by a caller-supplied random
    /// byte; the contract pins the whole state transition for every value of
    /// that byte. On failure the state is unchanged.
    pub fn tick_with(&mut self, rnd: u8) -> (r: Result<(), EmuError>)
        requires
            old(self)@.wf(),
        ensures
            final(self)@.wf(),
            match r {
                Ok(()) => spec_step(old(self)@, rnd) == Ok::<EmuView, EmuError>(final(self)@),
                Err(e) => spec_step(old(self)@, rnd) == Err::<EmuView, EmuError>(e)
                    && final(self)@ == old(self)@,
            },
    {
        if self.pc >= 4095 {
            return Err(EmuError::AddressOutOfRange);
        }
        let hi = self.ram[self.pc as usize];
        let lo = self.ram[self.pc as usize + 1];
        let op: u16 = ((hi as u16) << 8u16) | (lo as u16);
        let ins = match decode(op) {
            None => {
                return Err(EmuError::InvalidInstruction { op, pc: self.pc });
            },
            Some(i) => i,
        };
        proof {
            lemma_decode_bounds(op);
        }
        self.pc = self.pc + 2;
        match self.execute_instr(ins, rnd) {
            Ok(()) => Ok(()),
            Err(e) => {
                self.pc = self.pc - 2;
                Err(e)
            },
        }
    }

    /// One fetch-decode-execute step, drawing the random byte from the
    /// generator: whatever byte comes back, the transition is one of the
    /// `spec_step` outcomes. On failure the state is unchanged.
    pub fn tick(&mut self) -> (r: Result<(), EmuError>)
        requires
            old(self)@.wf(),
        ensures
            final(self)@.wf(),
            match r {
                Ok(()) => exists|rnd: u8|
                    #[trigger] spec_step(old(self)@, rnd) == Ok::<EmuView, EmuError>(
                        final(self)@,
                    ),
                Err(e) => (exists|rnd: u8|
                    #[trigger] spec_step(old(self)@, rnd) == Err::<EmuView, EmuError>(e))
                    && final(self)@ == old(self)@,
            },
    {
        let rnd = random_byte();
        self.tick_with(rnd)
    }
}

} // verus!
