//! The abstract machine: its state, and what one cycle does to it.
use vstd::prelude::*;

use crate::display::{CELLS, draw, every_index, lit_in};

verus! {

/// Size of the memory image, in bytes.
pub const MEMORY_SIZE: usize = 4096;

/// Number of general registers; the last one is the flag register.
pub const REGISTERS: usize = 16;

/// Address at which program code is loaded and execution starts.
pub const PROGRAM_START: usize = 0x200;

/// Address of the first byte of the built-in hexadecimal font.
pub const FONT_START: usize = 0x50;

/// Size of the font: sixteen glyphs of five bytes.
pub const FONT_SIZE: usize = 80;

/// Capacity of the call stack.
pub const STACK_CAPACITY: usize = 16;

/// A condition that stops the machine.
#[derive(Clone, Copy, Debug, PartialEq, Eq, Structural)]
pub enum Fault {
    /// A return with an empty call stack.
    StackUnderflow,
    /// A call with a full call stack.
    StackOverflow,
    /// A memory access that would reach past the end of memory.
    AddressOutOfRange,
}

/// What a completed cycle reports to its driver.
#[derive(Clone, Copy, Debug, PartialEq, Eq, Structural)]
pub struct Cycle {
    /// The instruction word that was executed.
    pub opcode: u16,
    /// Whether the instruction word had a meaning; an unrecognised one is a no-op.
    pub recognized: bool,
    /// Whether the sound timer ran out on this cycle.
    pub beep: bool,
}

/// The mathematical state of the machine.
pub struct MachineState {
    pub memory: Seq<u8>,
    pub v: Seq<u8>,
    pub index: u16,
    pub pc: u16,
    pub delay_timer: u8,
    pub sound_timer: u8,
    pub stack: Seq<u16>,
    pub display: Seq<bool>,
    pub draw_flag: bool,
    pub input_wait: bool,
}

/// The three decimal digits of a byte: hundreds, tens, ones.
pub open spec fn decimal_digits(n: u8) -> Seq<u8> {
    seq![n / 100, n / 10 % 10, n % 10]
}

/// The machine as it is built: memory, registers, timers and display zeroed,
/// the stack empty, and execution starting at the program start address.
pub open spec fn initial_state() -> MachineState {
    MachineState {
        memory: Seq::new(MEMORY_SIZE as nat, |i: int| 0u8),
        v: Seq::new(REGISTERS as nat, |i: int| 0u8),
        index: 0,
        pc: PROGRAM_START as u16,
        delay_timer: 0,
        sound_timer: 0,
        stack: Seq::empty(),
        display: Seq::new(2048, |i: int| false),
        draw_flag: false,
        input_wait: false,
    }
}

/// `mem` with `block` written over it from address `at` on.
pub open spec fn write_block(mem: Seq<u8>, at: int, block: Seq<u8>) -> Seq<u8> {
    Seq::new(mem.len(), |i: int| if at <= i < at + block.len() { block[i - at] } else { mem[i] })
}

/// What executing one instruction does, before the timers tick.
pub struct Effect {
    pub state: MachineState,
    pub fault: Option<Fault>,
    pub recognized: bool,
    pub turned_on: Seq<int>,
    pub turned_off: Seq<int>,
}

/// A recognised instruction that leaves the machine in state `s`.
pub open spec fn done(s: MachineState) -> Effect {
    Effect { state: s, fault: None, recognized: true, turned_on: Seq::empty(), turned_off: Seq::empty() }
}

/// An unrecognised instruction: a no-op.
pub open spec fn unrecognized(s: MachineState) -> Effect {
    Effect { state: s, fault: None, recognized: false, turned_on: Seq::empty(), turned_off: Seq::empty() }
}

/// An instruction that stops the machine with fault `f`.
pub open spec fn failed(s: MachineState, f: Fault) -> Effect {
    Effect { state: s, fault: Some(f), recognized: true, turned_on: Seq::empty(), turned_off: Seq::empty() }
}

/// The register named by the second nibble of an instruction word.
pub open spec fn reg_x(op: u16) -> int {
    (op / 256 % 16) as int
}

/// The register named by the third nibble of an instruction word.
pub open spec fn reg_y(op: u16) -> int {
    (op / 16 % 16) as int
}

/// The last nibble of an instruction word.
pub open spec fn low_nibble(op: u16) -> int {
    (op % 16) as int
}

/// The low byte of an instruction word.
pub open spec fn low_byte(op: u16) -> u8 {
    (op % 256) as u8
}

/// The low twelve bits of an instruction word.
pub open spec fn address(op: u16) -> u16 {
    (op % 4096) as u16
}

/// The instruction family: the top nibble of an instruction word.
pub open spec fn family(op: u16) -> int {
    (op / 4096) as int
}

/// `s` with register `i` set to `b`.
pub open spec fn set_v(s: MachineState, i: int, b: u8) -> MachineState {
    MachineState { v: s.v.update(i, b), ..s }
}

/// Skips the next instruction when `cond` holds.
pub open spec fn skip_if(s: MachineState, cond: bool) -> Effect {
    if cond {
        done(MachineState { pc: (s.pc + 2) as u16, ..s })
    } else {
        done(s)
    }
}

/// Whether key code `key` is asserted and equals `b`; a key above 15 means no key.
pub open spec fn key_is(key: u8, b: u8) -> bool {
    key < 16 && b == key
}

/// The system family: clear the screen, or return from a subroutine.
#[verifier::opaque]
pub open spec fn exec_system(s: MachineState, op: u16) -> Effect {
    if low_byte(op) == 0xE0 {
        Effect {
            state: MachineState {
                display: Seq::new(CELLS as nat, |i: int| false),
                draw_flag: true,
                ..s
            },
            fault: None,
            recognized: true,
            turned_on: Seq::empty(),
            turned_off: lit_in(s.display, every_index(CELLS as int)),
        }
    } else if low_byte(op) == 0xEE {
        if s.stack.len() == 0 {
            failed(s, Fault::StackUnderflow)
        } else {
            done(MachineState { pc: s.stack.last(), stack: s.stack.drop_last(), ..s })
        }
    } else {
        unrecognized(s)
    }
}

/// The register-register family. The flag register is written last, so when
/// the destination is the flag register it ends up holding the flag.
#[verifier::opaque]
pub open spec fn exec_arith(s: MachineState, op: u16) -> Effect {
    let x = reg_x(op);
    let vx = s.v[x];
    let vy = s.v[reg_y(op)];
    let k = low_nibble(op);
    if k == 0 {
        done(set_v(s, x, vy))
    } else if k == 1 {
        done(set_v(s, x, vx | vy))
    } else if k == 2 {
        done(set_v(s, x, vx & vy))
    } else if k == 3 {
        done(set_v(s, x, vx ^ vy))
    } else if k == 4 {
        done(set_v(set_v(s, x, ((vx + vy) % 256) as u8), 15, if vx + vy > 255 { 1 } else { 0 }))
    } else if k == 5 {
        done(set_v(set_v(s, x, ((vx - vy + 256) % 256) as u8), 15, if vx >= vy { 1 } else { 0 }))
    } else if k == 6 {
        done(set_v(set_v(s, x, vx / 2), 15, vx % 2))
    } else if k == 7 {
        done(set_v(set_v(s, x, ((vy - vx + 256) % 256) as u8), 15, if vy >= vx { 1 } else { 0 }))
    } else if k == 14 {
        done(set_v(set_v(s, x, ((vx * 2) % 256) as u8), 15, vx / 128))
    } else {
        unrecognized(s)
    }
}

/// The draw instruction: XOR-draws the sprite of `n` bytes at the index
/// register at `(v[x], v[y])`. The flag register reports whether a lit cell
/// was turned off.
#[verifier::opaque]
pub open spec fn exec_draw(s: MachineState, op: u16) -> Effect {
    let n = low_nibble(op);
    if s.index + n > MEMORY_SIZE {
        failed(s, Fault::AddressOutOfRange)
    } else {
        let sprite = s.memory.subrange(s.index as int, s.index + n);
        let r = draw(s.display, sprite, s.v[reg_x(op)], s.v[reg_y(op)]);
        Effect {
            state: MachineState {
                display: r.display,
                draw_flag: true,
                v: s.v.update(15, if r.turned_off.len() > 0 { 1 } else { 0 }),
                ..s
            },
            fault: None,
            recognized: true,
            turned_on: r.turned_on,
            turned_off: r.turned_off,
        }
    }
}

/// The key-skip family.
#[verifier::opaque]
pub open spec fn exec_key(s: MachineState, op: u16, key: u8) -> Effect {
    let vx = s.v[reg_x(op)];
    if low_byte(op) == 0x9E {
        skip_if(s, key_is(key, vx))
    } else if low_byte(op) == 0xA1 {
        skip_if(s, !key_is(key, vx))
    } else {
        unrecognized(s)
    }
}

/// The timer, index and memory-block family.
///
/// The key wait stores the asserted key; with no key asserted it leaves the
/// program counter on the wait instruction itself and raises the wait flag,
/// so the wait is executed again once a key is supplied.
#[verifier::opaque]
pub open spec fn exec_misc(s: MachineState, op: u16, key: u8) -> Effect {
    let x = reg_x(op);
    let vx = s.v[x];
    let k = low_byte(op);
    if k == 0x07 {
        done(set_v(s, x, s.delay_timer))
    } else if k == 0x0A {
        if key < 16 {
            done(set_v(s, x, key))
        } else {
            done(MachineState { pc: (s.pc - 2) as u16, input_wait: true, ..s })
        }
    } else if k == 0x15 {
        done(MachineState { delay_timer: vx, ..s })
    } else if k == 0x18 {
        done(MachineState { sound_timer: vx, ..s })
    } else if k == 0x1E {
        done(MachineState { index: ((s.index + vx) % 65536) as u16, ..s })
    } else if k == 0x29 {
        done(MachineState { index: (FONT_START + vx * 5) as u16, ..s })
    } else if k == 0x33 {
        if s.index + 3 > MEMORY_SIZE {
            failed(s, Fault::AddressOutOfRange)
        } else {
            done(MachineState { memory: write_block(s.memory, s.index as int, decimal_digits(vx)), ..s })
        }
    } else if k == 0x55 {
        if s.index + REGISTERS > MEMORY_SIZE {
            failed(s, Fault::AddressOutOfRange)
        } else {
            done(MachineState { memory: write_block(s.memory, s.index as int, s.v), ..s })
        }
    } else if k == 0x65 {
        if s.index + REGISTERS > MEMORY_SIZE {
            failed(s, Fault::AddressOutOfRange)
        } else {
            done(MachineState { v: s.memory.subrange(s.index as int, s.index + REGISTERS), ..s })
        }
    } else {
        unrecognized(s)
    }
}

/// Executes instruction word `op` on `s`, whose program counter already points
/// past it, with key code `key` asserted and `rnd` as the random byte.
pub open spec fn execute(s: MachineState, op: u16, key: u8, rnd: u8) -> Effect {
    let f = family(op);
    let x = reg_x(op);
    let kk = low_byte(op);
    if f == 0 {
        exec_system(s, op)
    } else if f == 1 {
        done(MachineState { pc: address(op), ..s })
    } else if f == 2 {
        if s.stack.len() >= STACK_CAPACITY {
            failed(s, Fault::StackOverflow)
        } else {
            done(MachineState { pc: address(op), stack: s.stack.push(s.pc), ..s })
        }
    } else if f == 3 {
        skip_if(s, s.v[x] == kk)
    } else if f == 4 {
        skip_if(s, s.v[x] != kk)
    } else if f == 5 {
        skip_if(s, s.v[x] == s.v[reg_y(op)])
    } else if f == 6 {
        done(set_v(s, x, kk))
    } else if f == 7 {
        done(set_v(s, x, ((s.v[x] + kk) % 256) as u8))
    } else if f == 8 {
        exec_arith(s, op)
    } else if f == 9 {
        skip_if(s, s.v[x] != s.v[reg_y(op)])
    } else if f == 10 {
        done(MachineState { index: address(op), ..s })
    } else if f == 11 {
        done(MachineState { pc: (address(op) + s.v[0]) as u16, ..s })
    } else if f == 12 {
        done(set_v(s, x, rnd & kk))
    } else if f == 13 {
        exec_draw(s, op)
    } else if f == 14 {
        exec_key(s, op, key)
    } else {
        exec_misc(s, op, key)
    }
}

/// The instruction word stored big-endian at address `a`.
pub open spec fn opcode_at(mem: Seq<u8>, a: int) -> u16 {
    (mem[a] * 256 + mem[a + 1]) as u16
}

/// One tick of a countdown timer: down by one, never below zero.
pub open spec fn tick(t: u8) -> u8 {
    if t > 0 {
        (t - 1) as u8
    } else {
        0
    }
}

/// The outcome of one cycle.
pub struct Step {
    pub state: MachineState,
    pub result: Result<Cycle, Fault>,
    pub turned_on: Seq<int>,
    pub turned_off: Seq<int>,
}

/// The state at the start of executing the instruction at `s.pc`: the program
/// counter advanced past it, the per-cycle flags cleared.
pub open spec fn fetched(s: MachineState) -> MachineState {
    MachineState { pc: (s.pc + 2) as u16, draw_flag: false, input_wait: false, ..s }
}

/// One cycle: fetch the instruction at the program counter, advance past it,
/// execute it, then tick both timers. A fault leaves the state as it was.
pub open spec fn step(s: MachineState, key: u8, rnd: u8) -> Step {
    if s.pc + 1 >= MEMORY_SIZE {
        Step { state: s, result: Err(Fault::AddressOutOfRange), turned_on: Seq::empty(), turned_off: Seq::empty() }
    } else {
        let op = opcode_at(s.memory, s.pc as int);
        let e = execute(fetched(s), op, key, rnd);
        match e.fault {
            Some(f) => Step { state: s, result: Err(f), turned_on: Seq::empty(), turned_off: Seq::empty() },
            None => Step {
                state: MachineState {
                    delay_timer: tick(e.state.delay_timer),
                    sound_timer: tick(e.state.sound_timer),
                    ..e.state
                },
                result: Ok(Cycle { opcode: op, recognized: e.recognized, beep: e.state.sound_timer == 1 }),
                turned_on: e.turned_on,
                turned_off: e.turned_off,
            },
        }
    }
}

} // verus!
