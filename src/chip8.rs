//! The executable machine.
use vstd::prelude::*;

use crate::display::{
    CELLS, Cell, HEIGHT, WIDTH, cell_of, cells_of, dark_in, draw, every_index,
    lemma_row_targets_bounds, lemma_sprite_targets_bounds, lit_in, pixel_index, row_targets,
    sprite_bit, sprite_targets, toggled,
};
use crate::model::{
    Cycle, Effect, FONT_SIZE, FONT_START, Fault, MEMORY_SIZE, MachineState, PROGRAM_START,
    REGISTERS, STACK_CAPACITY, decimal_digits, exec_arith, exec_draw, exec_key, exec_misc,
    exec_system, execute, family, fetched, initial_state, opcode_at, step, write_block,
};

verus! {

/// A CHIP-8 machine: memory, registers, call stack, timers and display.
pub struct Chip8 {
    memory: [u8; MEMORY_SIZE],
    vreg: [u8; REGISTERS],
    index: u16,
    pc: u16,
    delay_timer: u8,
    sound_timer: u8,
    stack: Vec<u16>,
    graphic: [bool; CELLS],
    /// Set by a cycle that may have changed what the display shows.
    pub draw_flag: bool,
    /// Set by a cycle that waits for a key to be pressed.
    pub input_wait: bool,
}

impl View for Chip8 {
    type V = MachineState;

    closed spec fn view(&self) -> MachineState {
        MachineState {
            memory: self.memory@,
            v: self.vreg@,
            index: self.index,
            pc: self.pc,
            delay_timer: self.delay_timer,
            sound_timer: self.sound_timer,
            stack: self.stack@,
            display: self.graphic@,
            draw_flag: self.draw_flag,
            input_wait: self.input_wait,
        }
    }
}

impl Default for Chip8 {
    /// A machine with zeroed memory, registers, timers and display, an empty
    /// stack, and the program counter at the start of program memory.
    fn default() -> (r: Self)
        ensures
            r@ == initial_state(),
    {
        let r = Chip8 {
            memory: [0u8; MEMORY_SIZE],
            vreg: [0u8; REGISTERS],
            index: 0,
            pc: 0x200,
            delay_timer: 0,
            sound_timer: 0,
            stack: Vec::new(),
            graphic: [false; CELLS],
            draw_flag: false,
            input_wait: false,
        };
        assert(r@.memory =~= initial_state().memory);
        assert(r@.v =~= initial_state().v);
        assert(r@.stack =~= initial_state().stack);
        assert(r@.display =~= initial_state().display);
        r
    }
}

impl Chip8 {
    /// Copies the font glyphs into memory at the font base address.
    pub fn fontLoad(&mut self, font: [u8; FONT_SIZE])
        ensures
            final(self)@ == (MachineState {
                memory: write_block(old(self)@.memory, FONT_START as int, font@),
                ..old(self)@
            }),
    {
        let ghost m0 = self.memory@;
        let mut i: usize = 0;
        while i < FONT_SIZE
            invariant
                i <= FONT_SIZE,
                self.memory@ == write_block(m0, FONT_START as int, font@.subrange(0, i as int)),
                self.vreg == old(self).vreg,
                self.index == old(self).index,
                self.pc == old(self).pc,
                self.delay_timer == old(self).delay_timer,
                self.sound_timer == old(self).sound_timer,
                self.stack == old(self).stack,
                self.graphic == old(self).graphic,
                self.draw_flag == old(self).draw_flag,
                self.input_wait == old(self).input_wait,
            decreases FONT_SIZE - i,
        {
            self.memory[FONT_START + i] = font[i];
            i = i + 1;
            assert(self.memory@ =~= write_block(m0, FONT_START as int, font@.subrange(0, i as int)));
        }
        assert(font@.subrange(0, FONT_SIZE as int) =~= font@);
    }

    /// The instruction word stored big-endian at the program counter.
    fn fetchOp(&self) -> (r: u16)
        requires
            self.pc + 1 < MEMORY_SIZE,
        ensures
            r == opcode_at(self@.memory, self.pc as int),
    {
        let hi = self.memory[self.pc as usize];
        let lo = self.memory[self.pc as usize + 1];
        hi as u16 * 256 + lo as u16
    }

    /// Executes instruction word `op`, the program counter already past it.
    fn exInstr(
        &mut self,
        op: u16,
        keypressed: u8,
        random: u8,
        black: &mut Vec<Cell>,
        white: &mut Vec<Cell>,
    ) -> (r: Result<bool, Fault>)
        requires
            2 <= old(self).pc <= MEMORY_SIZE,
        ensures
            follows(execute(old(self)@, op, keypressed, random), old(self)@, final(self)@, old(black)@, final(black)@, old(white)@, final(white)@, r),
    {
        let f = op / 4096;
        let x = (op / 256 % 16) as usize;
        let kk = (op % 256) as u8;
        if f == 0 {
            return self.exSystem(op, black, white);
        } else if f == 8 {
            return self.exArith(op, black, white);
        } else if f == 13 {
            return self.exDraw(op, black, white);
        } else if f == 14 {
            return self.exKey(op, keypressed, black, white);
        } else if f == 15 {
            return self.exMisc(op, keypressed, black, white);
        }
        proof { lemma_unchanged_lists(old(black)@, old(white)@); }
        if f == 1 {
            self.pc = op % 4096;
        } else if f == 2 {
            if self.stack.len() >= STACK_CAPACITY {
                return Err(Fault::StackOverflow);
            }
            self.stack.push(self.pc);
            self.pc = op % 4096;
        } else if f == 3 {
            if self.vreg[x] == kk {
                self.pc = self.pc + 2;
            }
        } else if f == 4 {
            if self.vreg[x] != kk {
                self.pc = self.pc + 2;
            }
        } else if f == 5 {
            if self.vreg[x] == self.vreg[(op / 16 % 16) as usize] {
                self.pc = self.pc + 2;
            }
        } else if f == 6 {
            self.vreg[x] = kk;
        } else if f == 7 {
            self.vreg[x] = self.vreg[x].wrapping_add(kk);
        } else if f == 9 {
            if self.vreg[x] != self.vreg[(op / 16 % 16) as usize] {
                self.pc = self.pc + 2;
            }
        } else if f == 10 {
            self.index = op % 4096;
        } else if f == 11 {
            self.pc = op % 4096 + self.vreg[0] as u16;
        } else {
            self.vreg[x] = random & kk;
        }
        Ok(true)
    }

    /// Copies a program image into memory from the program start address on.
    /// The image must fit in the memory above that address.
    pub fn romLoad(&mut self, rom: &[u8])
        requires
            rom@.len() <= MEMORY_SIZE - PROGRAM_START,
        ensures
            final(self)@ == (MachineState {
                memory: write_block(old(self)@.memory, PROGRAM_START as int, rom@),
                ..old(self)@
            }),
    {
        let ghost m0 = self.memory@;
        let mut i: usize = 0;
        while i < rom.len()
            invariant
                i <= rom@.len() <= MEMORY_SIZE - PROGRAM_START,
                self.memory@ == write_block(m0, PROGRAM_START as int, rom@.subrange(0, i as int)),
                self.vreg == old(self).vreg,
                self.index == old(self).index,
                self.pc == old(self).pc,
                self.delay_timer == old(self).delay_timer,
                self.sound_timer == old(self).sound_timer,
                self.stack == old(self).stack,
                self.graphic == old(self).graphic,
                self.draw_flag == old(self).draw_flag,
                self.input_wait == old(self).input_wait,
            decreases rom@.len() - i,
        {
            self.memory[PROGRAM_START + i] = rom[i];
            i = i + 1;
            assert(self.memory@ =~= write_block(m0, PROGRAM_START as int, rom@.subrange(0, i as int)));
        }
        assert(rom@.subrange(0, rom@.len() as int) =~= rom@);
    }

    /// The value of general register `i`.
    pub fn register(&self, i: usize) -> (r: u8)
        requires
            i < REGISTERS,
        ensures
            r == self@.v[i as int],
    {
        self.vreg[i]
    }

    /// The byte at memory address `addr`.
    pub fn memory_at(&self, addr: usize) -> (r: u8)
        requires
            addr < MEMORY_SIZE,
        ensures
            r == self@.memory[addr as int],
    {
        self.memory[addr]
    }

    /// The program counter.
    pub fn pc(&self) -> (r: u16)
        ensures
            r == self@.pc,
    {
        self.pc
    }

    /// The index register.
    pub fn index(&self) -> (r: u16)
        ensures
            r == self@.index,
    {
        self.index
    }

    /// The delay timer.
    pub fn delay_timer(&self) -> (r: u8)
        ensures
            r == self@.delay_timer,
    {
        self.delay_timer
    }

    /// The sound timer.
    pub fn sound_timer(&self) -> (r: u8)
        ensures
            r == self@.sound_timer,
    {
        self.sound_timer
    }

    /// The number of return addresses on the call stack.
    pub fn stack_depth(&self) -> (r: usize)
        ensures
            r == self@.stack.len(),
    {
        self.stack.len()
    }

    /// Whether the display cell at column `x`, row `y` is lit.
    pub fn pixel(&self, x: usize, y: usize) -> (r: bool)
        requires
            x < WIDTH,
            y < HEIGHT,
        ensures
            r == self@.display[x + y * 64],
    {
        self.graphic[x + y * WIDTH]
    }

    /// Runs one cycle with key code `keypressed` asserted (a code above 15
    /// means no key) and `random` as the byte a random-number instruction uses.
    ///
    /// The instruction at the program counter is fetched, the program counter
    /// advanced past it, the per-cycle flags cleared, the instruction executed
    /// and both timers ticked. Cells turned on are appended to `white` and
    /// cells turned off to `black`. On a fault the machine is left unchanged.
    pub fn exOp(
        &mut self,
        black: &mut Vec<Cell>,
        white: &mut Vec<Cell>,
        keypressed: u8,
        random: u8,
    ) -> (r: Result<Cycle, Fault>)
        ensures
            ({
                let st = step(old(self)@, keypressed, random);
                &&& final(self)@ == st.state
                &&& r == st.result
                &&& final(black)@ == old(black)@ + cells_of(st.turned_off)
                &&& final(white)@ == old(white)@ + cells_of(st.turned_on)
            }),
    {
        if self.pc as usize + 1 >= MEMORY_SIZE {
            proof { lemma_unchanged_lists(old(black)@, old(white)@); }
            return Err(Fault::AddressOutOfRange);
        }
        let opcode = self.fetchOp();
        let pc = self.pc;
        let draw_flag = self.draw_flag;
        let input_wait = self.input_wait;
        self.pc = self.pc + 2;
        self.draw_flag = false;
        self.input_wait = false;
        assert(self@ == fetched(old(self)@));
        match self.exInstr(opcode, keypressed, random, black, white) {
            Err(f) => {
                self.pc = pc;
                self.draw_flag = draw_flag;
                self.input_wait = input_wait;
                Err(f)
            },
            Ok(recognized) => {
                let beep = self.sound_timer == 1;
                if self.delay_timer > 0 {
                    self.delay_timer = self.delay_timer - 1;
                }
                if self.sound_timer > 0 {
                    self.sound_timer = self.sound_timer - 1;
                }
                Ok(Cycle { opcode, recognized, beep })
            },
        }
    }

    /// Runs one cycle with key code `keypressed` asserted (a code above 15
    /// means no key), drawing a fresh random byte for the random-number
    /// instruction. What it does is what [`Chip8::exOp`] does with some byte.
    pub fn emuCycle(
        &mut self,
        black: &mut Vec<Cell>,
        white: &mut Vec<Cell>,
        keypressed: u8,
    ) -> (r: Result<Cycle, Fault>)
        ensures
            exists|random: u8| {
                let st = #[trigger] step(old(self)@, keypressed, random);
                &&& final(self)@ == st.state
                &&& r == st.result
                &&& final(black)@ == old(black)@ + cells_of(st.turned_off)
                &&& final(white)@ == old(white)@ + cells_of(st.turned_on)
            },
    {
        let random = rand();
        self.exOp(black, white, keypressed, random)
    }

    /// Clear-screen and return-from-subroutine.
    fn exSystem(&mut self, op: u16, black: &mut Vec<Cell>, white: &mut Vec<Cell>) -> (r: Result<bool, Fault>)
        requires
            family(op) == 0,
        ensures
            follows(exec_system(old(self)@, op), old(self)@, final(self)@, old(black)@, final(black)@, old(white)@, final(white)@, r),
    {
        proof { reveal(exec_system); }
        let kk = (op % 256) as u8;
        if kk == 0xE0 {
            clear_cells(&mut self.graphic, black);
            self.draw_flag = true;
            proof {
                assert(white@ =~= old(white)@ + cells_of(Seq::empty()));
            }
            Ok(true)
        } else if kk == 0xEE {
            match self.stack.pop() {
                None => {
                    proof { lemma_unchanged_lists(old(black)@, old(white)@); }
                    Err(Fault::StackUnderflow)
                },
                Some(a) => {
                    self.pc = a;
                    proof {
                        lemma_unchanged_lists(old(black)@, old(white)@);
                        assert(self.stack@ =~= old(self)@.stack.drop_last());
                    }
                    Ok(true)
                },
            }
        } else {
            proof { lemma_unchanged_lists(old(black)@, old(white)@); }
            Ok(false)
        }
    }

    /// The register-register instructions.
    #[verifier::rlimit(40)]
    fn exArith(&mut self, op: u16, black: &Vec<Cell>, white: &Vec<Cell>) -> (r: Result<bool, Fault>)
        requires
            family(op) == 8,
        ensures
            follows(exec_arith(old(self)@, op), old(self)@, final(self)@, black@, black@, white@, white@, r),
    {
        proof { reveal(exec_arith); }
        proof { lemma_unchanged_lists(black@, white@); }
        let x = (op / 256 % 16) as usize;
        let vx = self.vreg[x];
        let vy = self.vreg[(op / 16 % 16) as usize];
        let k = op % 16;
        if k == 0 {
            self.vreg[x] = vy;
        } else if k == 1 {
            self.vreg[x] = vx | vy;
        } else if k == 2 {
            self.vreg[x] = vx & vy;
        } else if k == 3 {
            self.vreg[x] = vx ^ vy;
        } else if k == 4 {
            self.vreg[x] = vx.wrapping_add(vy);
            self.vreg[15] = if vx as u16 + vy as u16 > 255 { 1 } else { 0 };
        } else if k == 5 {
            self.vreg[x] = vx.wrapping_sub(vy);
            self.vreg[15] = if vx >= vy { 1 } else { 0 };
        } else if k == 6 {
            self.vreg[x] = vx / 2;
            self.vreg[15] = vx % 2;
        } else if k == 7 {
            self.vreg[x] = vy.wrapping_sub(vx);
            self.vreg[15] = if vy >= vx { 1 } else { 0 };
        } else if k == 14 {
            self.vreg[x] = vx.wrapping_add(vx);
            self.vreg[15] = vx / 128;
        } else {
            return Ok(false);
        }
        Ok(true)
    }

    /// The sprite draw.
    fn exDraw(&mut self, op: u16, black: &mut Vec<Cell>, white: &mut Vec<Cell>) -> (r: Result<bool, Fault>)
        requires
            family(op) == 13,
        ensures
            follows(exec_draw(old(self)@, op), old(self)@, final(self)@, old(black)@, final(black)@, old(white)@, final(white)@, r),
    {
        proof { reveal(exec_draw); }
        let n = (op % 16) as usize;
        let start = self.index as usize;
        if start + n > MEMORY_SIZE {
            proof { lemma_unchanged_lists(old(black)@, old(white)@); }
            return Err(Fault::AddressOutOfRange);
        }
        let x = self.vreg[(op / 256 % 16) as usize];
        let y = self.vreg[(op / 16 % 16) as usize];
        let collided = xor_draw(&mut self.graphic, &self.memory, start, n, x, y, black, white);
        self.vreg[15] = if collided { 1 } else { 0 };
        self.draw_flag = true;
        Ok(true)
    }

    /// The key-skip instructions.
    fn exKey(&mut self, op: u16, keypressed: u8, black: &Vec<Cell>, white: &Vec<Cell>) -> (r: Result<bool, Fault>)
        requires
            family(op) == 14,
            old(self).pc <= MEMORY_SIZE,
        ensures
            follows(exec_key(old(self)@, op, keypressed), old(self)@, final(self)@, black@, black@, white@, white@, r),
    {
        proof { reveal(exec_key); }
        proof { lemma_unchanged_lists(black@, white@); }
        let kk = (op % 256) as u8;
        let pressed = keypressed < 16 && self.vreg[(op / 256 % 16) as usize] == keypressed;
        if kk == 0x9E {
            if pressed {
                self.pc = self.pc + 2;
            }
            Ok(true)
        } else if kk == 0xA1 {
            if !pressed {
                self.pc = self.pc + 2;
            }
            Ok(true)
        } else {
            Ok(false)
        }
    }

    /// The timer, index, key-wait and memory-block instructions.
    fn exMisc(&mut self, op: u16, keypressed: u8, black: &Vec<Cell>, white: &Vec<Cell>) -> (r: Result<bool, Fault>)
        requires
            family(op) == 15,
            2 <= old(self).pc,
        ensures
            follows(exec_misc(old(self)@, op, keypressed), old(self)@, final(self)@, black@, black@, white@, white@, r),
    {
        proof { reveal(exec_misc); }
        proof { lemma_unchanged_lists(black@, white@); }
        let x = (op / 256 % 16) as usize;
        let vx = self.vreg[x];
        let k = (op % 256) as u8;
        let start = self.index as usize;
        if k == 0x07 {
            self.vreg[x] = self.delay_timer;
        } else if k == 0x0A {
            if keypressed < 16 {
                self.vreg[x] = keypressed;
            } else {
                self.pc = self.pc - 2;
                self.input_wait = true;
            }
        } else if k == 0x15 {
            self.delay_timer = vx;
        } else if k == 0x18 {
            self.sound_timer = vx;
        } else if k == 0x1E {
            self.index = self.index.wrapping_add(vx as u16);
        } else if k == 0x29 {
            self.index = FONT_START as u16 + vx as u16 * 5;
        } else if k == 0x33 {
            if start + 3 > MEMORY_SIZE {
                return Err(Fault::AddressOutOfRange);
            }
            let digits = num_get(vx);
            self.memory[start] = digits[0];
            self.memory[start + 1] = digits[1];
            self.memory[start + 2] = digits[2];
            proof {
                assert(self.memory@ =~= write_block(old(self)@.memory, start as int, decimal_digits(vx)));
            }
        } else if k == 0x55 {
            if start + REGISTERS > MEMORY_SIZE {
                return Err(Fault::AddressOutOfRange);
            }
            let mut i: usize = 0;
            while i < REGISTERS
                invariant
                    i <= REGISTERS,
                    start + REGISTERS <= MEMORY_SIZE,
                    self.memory@ == write_block(old(self)@.memory, start as int, self.vreg@.subrange(0, i as int)),
                    self.vreg == old(self).vreg,
                    self.index == old(self).index,
                    self.pc == old(self).pc,
                    self.delay_timer == old(self).delay_timer,
                    self.sound_timer == old(self).sound_timer,
                    self.stack == old(self).stack,
                    self.graphic == old(self).graphic,
                    self.draw_flag == old(self).draw_flag,
                    self.input_wait == old(self).input_wait,
                decreases REGISTERS - i,
            {
                self.memory[start + i] = self.vreg[i];
                i = i + 1;
                assert(self.memory@ =~= write_block(old(self)@.memory, start as int, self.vreg@.subrange(0, i as int)));
            }
            assert(self.vreg@.subrange(0, REGISTERS as int) =~= self.vreg@);
        } else if k == 0x65 {
            if start + REGISTERS > MEMORY_SIZE {
                return Err(Fault::AddressOutOfRange);
            }
            let mut i: usize = 0;
            while i < REGISTERS
                invariant
                    i <= REGISTERS,
                    start + REGISTERS <= MEMORY_SIZE,
                    forall|j: int| 0 <= j < i ==> self.vreg@[j] == self.memory@[start + j],
                    forall|j: int| i <= j < REGISTERS ==> self.vreg@[j] == old(self).vreg@[j],
                    self.memory == old(self).memory,
                    self.index == old(self).index,
                    self.pc == old(self).pc,
                    self.delay_timer == old(self).delay_timer,
                    self.sound_timer == old(self).sound_timer,
                    self.stack == old(self).stack,
                    self.graphic == old(self).graphic,
                    self.draw_flag == old(self).draw_flag,
                    self.input_wait == old(self).input_wait,
                decreases REGISTERS - i,
            {
                self.vreg[i] = self.memory[start + i];
                i = i + 1;
            }
            assert(self.vreg@ =~= old(self)@.memory.subrange(start as int, start + REGISTERS));
        } else {
            return Ok(false);
        }
        Ok(true)
    }
}

/// What a machine in state `pre` must become, and report, when it carries out
/// effect `e`: on a fault nothing changes.
pub open spec fn follows(
    e: Effect,
    pre: MachineState,
    post: MachineState,
    black0: Seq<Cell>,
    black1: Seq<Cell>,
    white0: Seq<Cell>,
    white1: Seq<Cell>,
    r: Result<bool, Fault>,
) -> bool {
    &&& post == (if e.fault is Some { pre } else { e.state })
    &&& r == (match e.fault {
        Some(f) => Err(f),
        None => Ok(e.recognized),
    })
    &&& black1 == (if e.fault is Some { black0 } else { black0 + cells_of(e.turned_off) })
    &&& white1 == (if e.fault is Some { white0 } else { white0 + cells_of(e.turned_on) })
}

proof fn lemma_unchanged_lists(black: Seq<Cell>, white: Seq<Cell>)
    ensures
        black == black + cells_of(Seq::empty()),
        white == white + cells_of(Seq::empty()),
{
    assert(black =~= black + cells_of(Seq::empty()));
    assert(white =~= white + cells_of(Seq::empty()));
}

/// Turns every lit cell of `graphic` off, appending each to `black` in order.
fn clear_cells(graphic: &mut [bool; CELLS], black: &mut Vec<Cell>)
    ensures
        final(graphic)@ == Seq::new(CELLS as nat, |i: int| false),
        final(black)@ == old(black)@ + cells_of(lit_in(old(graphic)@, every_index(CELLS as int))),
{
    let ghost d0 = graphic@;
    let ghost b0 = black@;
    let mut i: usize = 0;
    while i < CELLS
        invariant
            i <= CELLS,
            d0.len() == CELLS,
            graphic@ == Seq::new(CELLS as nat, |j: int| if j < i { false } else { d0[j] }),
            black@ == b0 + cells_of(lit_in(d0, every_index(i as int))),
        decreases CELLS - i,
    {
        let ghost before = every_index(i as int);
        let lit = graphic[i];
        if lit {
            black.push(Cell { x: (i % 64) as u8, y: (i / 64) as u8 });
            graphic[i] = false;
        }
        i = i + 1;
        proof {
            assert(every_index(i as int).drop_last() =~= before);
            assert(every_index(i as int).last() == i - 1);
            assert(black@ =~= b0 + cells_of(lit_in(d0, every_index(i as int))));
            assert(graphic@ =~= Seq::new(CELLS as nat, |j: int| if j < i { false } else { d0[j] }));
        }
    }
    assert(graphic@ =~= Seq::new(CELLS as nat, |i: int| false));
}

/// XOR-draws the `n` sprite rows stored at `memory[start..start + n]` onto
/// `graphic` at `(x, y)`. Cells turned on are appended to `white`, cells turned
/// off to `black`; the result tells whether any cell was turned off.
fn xor_draw(
    graphic: &mut [bool; CELLS],
    memory: &[u8; MEMORY_SIZE],
    start: usize,
    n: usize,
    x: u8,
    y: u8,
    black: &mut Vec<Cell>,
    white: &mut Vec<Cell>,
) -> (collided: bool)
    requires
        start + n <= MEMORY_SIZE,
    ensures
        ({
            let r = draw(old(graphic)@, memory@.subrange(start as int, start + n), x, y);
            &&& final(graphic)@ == r.display
            &&& final(white)@ == old(white)@ + cells_of(r.turned_on)
            &&& final(black)@ == old(black)@ + cells_of(r.turned_off)
            &&& collided == (r.turned_off.len() > 0)
        }),
{
    let ghost d0 = graphic@;
    let ghost b0 = black@;
    let ghost w0 = white@;
    let ghost sprite = memory@.subrange(start as int, start + n);
    let mut collided = false;
    let mut r: usize = 0;
    while r < n
        invariant
            start + n <= MEMORY_SIZE,
            r <= n,
            sprite == memory@.subrange(start as int, start + n),
            d0.len() == CELLS,
            ({
                let ts = sprite_targets(sprite, x, y, r as int);
                &&& graphic@ == toggled(d0, ts)
                &&& white@ == w0 + cells_of(dark_in(d0, ts))
                &&& black@ == b0 + cells_of(lit_in(d0, ts))
                &&& collided == (lit_in(d0, ts).len() > 0)
            }),
        decreases n - r,
    {
        let row = memory[start + r];
        let ghost prefix = sprite_targets(sprite, x, y, r as int);
        proof {
            lemma_sprite_targets_bounds(sprite, x, y, r as int);
        }
        let mut c: u8 = 0;
        while c < 8
            invariant
                start + n <= MEMORY_SIZE,
                r < n,
                c <= 8,
                sprite.len() == n,
                row == sprite[r as int],
                d0.len() == CELLS,
                prefix == sprite_targets(sprite, x, y, r as int),
                forall|i: int| 0 <= i < prefix.len() ==> #[trigger] prefix[i] < pixel_index(x, y, r as int, 0),
                ({
                    let ts = prefix + row_targets(row, x, y, r as int, c as int);
                    &&& graphic@ == toggled(d0, ts)
                    &&& white@ == w0 + cells_of(dark_in(d0, ts))
                    &&& black@ == b0 + cells_of(lit_in(d0, ts))
                    &&& collided == (lit_in(d0, ts).len() > 0)
                }),
            decreases 8 - c,
        {
            let ghost before = prefix + row_targets(row, x, y, r as int, c as int);
            proof {
                lemma_row_targets_bounds(row, x, y, r as int, c as int);
            }
            let sh: u8 = 7 - c;
            if (row >> sh) & 1 == 1 {
                let t: usize = x as usize + c as usize + (y as usize + r) * 64;
                if t < CELLS {
                    let cell = Cell { x: (t % 64) as u8, y: (t / 64) as u8 };
                    let lit = graphic[t];
                    proof {
                        assert(!before.contains(t as int)) by {
                            if before.contains(t as int) {
                                let j = choose|j: int| 0 <= j < before.len() && before[j] == t as int;
                                if j < prefix.len() {
                                    assert(before[j] == prefix[j]);
                                } else {
                                    assert(before[j] == row_targets(row, x, y, r as int, c as int)[j - prefix.len()]);
                                }
                            }
                        }
                        assert(lit == d0[t as int]);
                    }
                    if lit {
                        collided = true;
                        black.push(cell);
                    } else {
                        white.push(cell);
                    }
                    graphic[t] = !lit;
                    proof {
                        let after = before.push(t as int);
                        assert(after.drop_last() =~= before);
                        assert(prefix + row_targets(row, x, y, r as int, c + 1) =~= after);
                        assert forall|i: int| #[trigger] after.contains(i) <==> (before.contains(i) || i == t) by {
                            if after.contains(i) && i != t {
                                let j = choose|j: int| 0 <= j < after.len() && after[j] == i;
                                assert(before[j] == i);
                            }
                            if before.contains(i) {
                                let j = choose|j: int| 0 <= j < before.len() && before[j] == i;
                                assert(after[j] == i);
                            }
                            if i == t {
                                assert(after[before.len() as int] == i);
                            }
                        }
                        assert(graphic@ =~= toggled(d0, after));
                        assert(cells_of(dark_in(d0, after)) =~= if lit { cells_of(dark_in(d0, before)) } else { cells_of(dark_in(d0, before)).push(cell_of(t as int)) });
                        assert(cells_of(lit_in(d0, after)) =~= if lit { cells_of(lit_in(d0, before)).push(cell_of(t as int)) } else { cells_of(lit_in(d0, before)) });
                        assert(white@ =~= w0 + cells_of(dark_in(d0, after)));
                        assert(black@ =~= b0 + cells_of(lit_in(d0, after)));
                    }
                } else {
                    assert(prefix + row_targets(row, x, y, r as int, c + 1) == before);
                }
            } else {
                assert(!sprite_bit(row, c));
                assert(prefix + row_targets(row, x, y, r as int, c + 1) == before);
            }
            c = c + 1;
        }
        r = r + 1;
        proof {
            assert(sprite_targets(sprite, x, y, r as int) == prefix + row_targets(row, x, y, r - 1, 8));
        }
    }
    proof {
        assert(sprite.len() == n);
    }
    collided
}

/// A random byte. Relies on `rand::random::<u8>`, which draws from the
/// thread-local generator; nothing is promised of the value.
#[verifier::external_body]
fn rand() -> u8 {
    ::rand::random::<u8>()
}

/// The three decimal digits of `n`, most significant first, zero-padded.
pub fn num_get(n: u8) -> (r: [u8; 3])
    ensures
        r@ == decimal_digits(n),
{
    let r = [n / 100, n / 10 % 10, n % 10];
    assert(r@ =~= decimal_digits(n));
    r
}

} // verus!
