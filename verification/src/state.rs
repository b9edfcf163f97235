//! The machine state and its lifecycle.
//!
//! [`Emu`] holds memory, registers, call stack, keypad, timers and the
//! framebuffer. Its mathematical model is [`EmuView`]; every operation's
//! contract is stated over that view.

use vstd::prelude::*;

verus! {

use crate::font::{font_seq, FONTSET, FONTSET_SIZE};

/// Width of the monochrome framebuffer in pixels.
pub const SCREEN_WIDTH: usize = 64;
/// Height of the monochrome framebuffer in pixels.
pub const SCREEN_HEIGHT: usize = 32;
/// Number of addressable bytes of memory.
pub const RAM_SIZE: usize = 4096;
/// Number of general-purpose registers (V0 through VF).
pub const NUM_REGS: usize = 16;
/// Capacity of the call stack.
pub const STACK_SIZE: usize = 16;
/// Number of keypad keys.
pub const NUM_KEYS: usize = 16;
/// Address at which loaded programs begin.
pub const START_ADDR: u16 = 0x200;
/// Largest program that fits between `START_ADDR` and the end of memory.
pub const MAX_ROM_SIZE: usize = 3584;

/// Typed failures surfaced by `load` and `tick`.
#[derive(Clone, Copy, Debug, PartialEq, Eq, Structural)]
pub enum EmuError {
    /// The decoder found no pattern matching the fetched instruction.
    /// Carries the raw 16-bit instruction and the program counter at the
    /// time of the fetch.
    InvalidInstruction { op: u16, pc: u16 },
    /// `load` was handed more bytes than fit between the start address and
    /// the end of memory.
    OversizedRom,
    /// A computed memory address or key index fell outside its valid range.
    AddressOutOfRange,
    /// A subroutine call would push beyond the 16-entry call stack.
    StackOverflow,
    /// A subroutine return was executed with an empty call stack.
    StackUnderflow,
}

/// The mathematical model of the machine state.
#[verifier::ext_equal]
pub struct EmuView {
    /// Program counter.
    pub pc: u16,
    /// The 4096 bytes of memory.
    pub ram: Seq<u8>,
    /// The 64x32 framebuffer, row-major: index = y * 64 + x.
    pub screen: Seq<bool>,
    /// The 16 general-purpose registers V0 through VF.
    pub v_reg: Seq<u8>,
    /// Index register, used as a memory pointer.
    pub i_reg: u16,
    /// Stack pointer: number of return addresses on the stack.
    pub sp: u16,
    /// The 16 call-stack slots.
    pub stack: Seq<u16>,
    /// The 16 keypad states.
    pub keys: Seq<bool>,
    /// Delay timer.
    pub dt: u8,
    /// Sound timer.
    pub st: u8,
}

impl EmuView {
    /// All fixed-size parts have their fixed sizes, and the stack pointer
    /// stays within the stack.
    pub open spec fn wf(self) -> bool {
        &&& self.ram.len() == 4096
        &&& self.screen.len() == 2048
        &&& self.v_reg.len() == 16
        &&& self.stack.len() == 16
        &&& self.keys.len() == 16
        &&& self.sp <= 16
    }
}

/// A blank 64x32 framebuffer.
pub open spec fn blank_screen() -> Seq<bool> {
    Seq::new(2048, |i: int| false)
}

/// Memory at initialization: the font table in the low region, zero
/// everywhere else.
pub open spec fn initial_ram() -> Seq<u8> {
    Seq::new(4096, |i: int| if i < 80 { font_seq()[i] } else { 0u8 })
}

/// The deterministic initial state: program counter at the start address,
/// font table loaded, everything else zeroed or blank.
pub open spec fn initial_view() -> EmuView {
    EmuView {
        pc: 0x200,
        ram: initial_ram(),
        screen: blank_screen(),
        v_reg: Seq::new(16, |i: int| 0u8),
        i_reg: 0,
        sp: 0,
        stack: Seq::new(16, |i: int| 0u16),
        keys: Seq::new(16, |i: int| false),
        dt: 0,
        st: 0,
    }
}

/// What `load` does: copies the bytes into memory starting at the start
/// address, or fails when they do not fit. Nothing else changes.
pub open spec fn spec_load(s: EmuView, data: Seq<u8>) -> Result<EmuView, EmuError> {
    if data.len() > 3584 {
        Err(EmuError::OversizedRom)
    } else {
        Ok(EmuView {
            ram: Seq::new(
                4096,
                |a: int| if 0x200 <= a < 0x200 + data.len() { data[a - 0x200] } else { s.ram[a] },
            ),
            ..s
        })
    }
}

/// The CHIP-8 machine: memory, registers, call stack, keypad, timers and
/// framebuffer, driven one instruction at a time by `tick`.
#[derive(Debug, Clone, PartialEq)]
pub struct Emu {
    /// Program counter.
    pub pc: u16,
    /// The 4096 bytes of memory.
    pub ram: Vec<u8>,
    /// The framebuffer, row-major: index = y * 64 + x.
    pub screen: Vec<bool>,
    /// The 16 general-purpose registers V0 through VF.
    pub v_reg: Vec<u8>,
    /// Index register.
    pub i_reg: u16,
    /// Stack pointer.
    pub sp: u16,
    /// The call stack.
    pub stack: Vec<u16>,
    /// The keypad states.
    pub keys: Vec<bool>,
    /// Delay timer.
    pub dt: u8,
    /// Sound timer.
    pub st: u8,
}

impl View for Emu {
    type V = EmuView;

    open spec fn view(&self) -> EmuView {
        EmuView {
            pc: self.pc,
            ram: self.ram@,
            screen: self.screen@,
            v_reg: self.v_reg@,
            i_reg: self.i_reg,
            sp: self.sp,
            stack: self.stack@,
            keys: self.keys@,
            dt: self.dt,
            st: self.st,
        }
    }
}

/// A vector of `n` copies of `val`.
pub(crate) fn filled<T: Copy>(n: usize, val: T) -> (r: Vec<T>)
    ensures
        r@ == Seq::new(n as nat, |i: int| val),
{
    let mut r: Vec<T> = Vec::new();
    let mut i: usize = 0;
    while i < n
        invariant
            i <= n,
            r@.len() == i,
            forall|j: int| 0 <= j < i ==> r@[j] == val,
        decreases n - i,
    {
        r.push(val);
        i += 1;
    }
    proof {
        assert(r@ =~= Seq::new(n as nat, |i: int| val));
    }
    r
}

/// Memory in its initial state: zeroed, with the font table copied into the
/// low region.
fn make_initial_ram() -> (r: Vec<u8>)
    ensures
        r@ == initial_ram(),
{
    let mut r: Vec<u8> = filled(RAM_SIZE, 0u8);
    let mut i: usize = 0;
    while i < FONTSET_SIZE
        invariant
            i <= 80,
            r@.len() == 4096,
            forall|j: int| 0 <= j < i ==> r@[j] == font_seq()[j],
            forall|j: int| i <= j < 4096 ==> r@[j] == 0u8,
        decreases 80 - i,
    {
        r[i] = FONTSET[i];
        i += 1;
    }
    proof {
        assert(r@ =~= initial_ram());
    }
    r
}

impl Emu {
    /// A freshly constructed machine in the deterministic initial state.
    pub fn new() -> (r: Emu)
        ensures
            r@ == initial_view(),
            r@.wf(),
    {
        let emu = Emu {
            pc: START_ADDR,
            ram: make_initial_ram(),
            screen: filled(SCREEN_WIDTH * SCREEN_HEIGHT, false),
            v_reg: filled(NUM_REGS, 0u8),
            i_reg: 0,
            sp: 0,
            stack: filled(STACK_SIZE, 0u16),
            keys: filled(NUM_KEYS, false),
            dt: 0,
            st: 0,
        };
        proof {
            assert(emu@ =~= initial_view());
        }
        emu
    }

    /// Restores the deterministic initial state in place; the result is the
    /// same state a freshly constructed machine has.
    pub fn reset(&mut self)
        ensures
            final(self)@ == initial_view(),
            final(self)@.wf(),
    {
        self.pc = START_ADDR;
        self.ram = make_initial_ram();
        self.screen = filled(SCREEN_WIDTH * SCREEN_HEIGHT, false);
        self.v_reg = filled(NUM_REGS, 0u8);
        self.i_reg = 0;
        self.sp = 0;
        self.stack = filled(STACK_SIZE, 0u16);
        self.keys = filled(NUM_KEYS, false);
        self.dt = 0;
        self.st = 0;
        proof {
            assert(self@ =~= initial_view());
        }
    }

    /// Copies a program into memory starting at the start address; fails,
    /// changing nothing, when it does not fit.
    pub fn load(&mut self, data: &[u8]) -> (r: Result<(), EmuError>)
        requires
            old(self)@.wf(),
        ensures
            final(self)@.wf(),
            match r {
                Ok(()) => spec_load(old(self)@, data@) == Ok::<EmuView, EmuError>(final(self)@),
                Err(e) => spec_load(old(self)@, data@) == Err::<EmuView, EmuError>(e)
                    && final(self)@ == old(self)@,
            },
    {
        if data.len() > MAX_ROM_SIZE {
            return Err(EmuError::OversizedRom);
        }
        copy_into(&mut self.ram, data, START_ADDR as usize);
        proof {
            assert(self@.ram =~= spec_load(old(self)@, data@)->Ok_0.ram);
            assert(self@ =~= spec_load(old(self)@, data@)->Ok_0);
        }
        Ok(())
    }

    /// Sets one keypad key; the index must name one of the 16 keys.
    pub fn keypress(&mut self, idx: usize, pressed: bool)
        requires
            old(self)@.wf(),
            idx < 16,
        ensures
            final(self)@ == (EmuView { keys: old(self)@.keys.update(idx as int, pressed), ..old(self)@ }),
            final(self)@.wf(),
    {
        self.keys[idx] = pressed;
    }

    /// A read-only view of the 2048-cell framebuffer, row-major.
    pub fn get_display(&self) -> (r: &[bool])
        ensures
            r@ == self@.screen,
    {
        self.screen.as_slice()
    }

    /// One timer step: each timer above zero counts down by one. Returns
    /// true exactly when the sound timer reaches zero on this call, the
    /// "tone end" signal for the audio collaborator.
    pub fn tick_timers(&mut self) -> (tone_end: bool)
        ensures
            final(self)@ == (EmuView {
                dt: if old(self)@.dt > 0 { (old(self)@.dt - 1) as u8 } else { 0 },
                st: if old(self)@.st > 0 { (old(self)@.st - 1) as u8 } else { 0 },
                ..old(self)@
            }),
            tone_end == (old(self)@.st == 1),
    {
        let mut tone_end = false;
        if self.dt > 0 {
            self.dt = self.dt - 1;
        }
        if self.st > 0 {
            if self.st == 1 {
                tone_end = true;
            }
            self.st = self.st - 1;
        }
        tone_end
    }

    /// Pushes a return address; fails, changing nothing, when the stack is
    /// full.
    pub(crate) fn push(&mut self, val: u16) -> (r: Result<(), EmuError>)
        requires
            old(self)@.wf(),
        ensures
            final(self)@.wf(),
            match r {
                Ok(()) => old(self)@.sp < 16 && final(self)@ == (EmuView {
                    stack: old(self)@.stack.update(old(self)@.sp as int, val),
                    sp: (old(self)@.sp + 1) as u16,
                    ..old(self)@
                }),
                Err(e) => e == EmuError::StackOverflow && old(self)@.sp >= 16
                    && final(self)@ == old(self)@,
            },
    {
        if self.sp >= STACK_SIZE as u16 {
            return Err(EmuError::StackOverflow);
        }
        self.stack[self.sp as usize] = val;
        self.sp = self.sp + 1;
        Ok(())
    }

    /// Pops a return address; fails, changing nothing, when the stack is
    /// empty.
    pub(crate) fn pop(&mut self) -> (r: Result<u16, EmuError>)
        requires
            old(self)@.wf(),
        ensures
            final(self)@.wf(),
            match r {
                Ok(v) => old(self)@.sp > 0 && v == old(self)@.stack[old(self)@.sp - 1]
                    && final(self)@ == (EmuView { sp: (old(self)@.sp - 1) as u16, ..old(self)@ }),
                Err(e) => e == EmuError::StackUnderflow && old(self)@.sp == 0
                    && final(self)@ == old(self)@,
            },
    {
        if self.sp == 0 {
            return Err(EmuError::StackUnderflow);
        }
        self.sp = self.sp - 1;
        Ok(self.stack[self.sp as usize])
    }
}

/// Copies `data` into `ram` starting at `start`; everything outside that
/// range is untouched.
fn copy_into(ram: &mut Vec<u8>, data: &[u8], start: usize)
    requires
        old(ram)@.len() == 4096,
        start + data@.len() <= 4096,
    ensures
        final(ram)@ == Seq::new(
            4096,
            |a: int| if start <= a < start + data@.len() { data@[a - start] } else { old(ram)@[a] },
        ),
{
    let n = data.len();
    let mut k: usize = 0;
    while k < n
        invariant
            k <= n,
            n == data@.len(),
            start + n <= 4096,
            ram@.len() == 4096,
            forall|a: int| start <= a < start + k ==> ram@[a] == data@[a - start],
            forall|a: int| 0 <= a < 4096 && !(start <= a < start + k) ==> ram@[a] == old(ram)@[a],
        decreases n - k,
    {
        ram[start + k] = data[k];
        k += 1;
    }
    proof {
        assert(ram@ =~= Seq::new(
            4096,
            |a: int| if start <= a < start + data@.len() { data@[a - start] } else { old(ram)@[a] },
        ));
    }
}

} // verus!
