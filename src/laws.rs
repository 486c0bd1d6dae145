//! Properties of the machine that span several instructions or cycles.
use vstd::prelude::*;

use crate::display::{
    CELLS, draw, lemma_dark_lit_swap, lemma_sprite_targets_bounds, lemma_toggled_twice,
    sprite_targets, toggled,
};
use crate::model::{
    MEMORY_SIZE, MachineState, REGISTERS, STACK_CAPACITY, exec_arith, exec_draw, exec_key,
    exec_misc, exec_system, family, low_byte, reg_x, opcode_at, step, tick,
};

verus! {

/// Drawing the same sprite at the same place twice in a row gives back the
/// display it started from. The second draw turns on exactly the cells that the
/// first turned off, and turns off exactly those that the first turned on, in
/// the same order.
pub proof fn lemma_draw_twice(d: Seq<bool>, sprite: Seq<u8>, x: u8, y: u8)
    requires
        d.len() == CELLS,
    ensures
        ({
            let first = draw(d, sprite, x, y);
            let second = draw(first.display, sprite, x, y);
            &&& second.display == d
            &&& second.turned_on == first.turned_off
            &&& second.turned_off == first.turned_on
        }),
{
    let ts = sprite_targets(sprite, x, y, sprite.len() as int);
    let e = toggled(d, ts);
    lemma_sprite_targets_bounds(sprite, x, y, sprite.len() as int);
    assert forall|i: int| 0 <= i < ts.len() implies e[#[trigger] ts[i]] != d[ts[i]] by {
        assert(ts.contains(ts[i]));
    }
    lemma_dark_lit_swap(d, e, ts);
    lemma_toggled_twice(d, ts);
}

/// Loading `kk` into register `x` and then adding `kk2` to it leaves
/// `(kk + kk2) mod 256` there. Both cycles complete, and no other register
/// changes: the addition sets no flag.
pub proof fn lemma_load_then_add(s: MachineState, x: u8, kk: u8, kk2: u8, key1: u8, rnd1: u8, key2: u8, rnd2: u8)
    requires
        s.memory.len() == MEMORY_SIZE,
        s.v.len() == REGISTERS,
        x < 16,
        s.pc + 3 < MEMORY_SIZE,
        opcode_at(s.memory, s.pc as int) == 0x6000 + x * 256 + kk,
        opcode_at(s.memory, s.pc + 2) == 0x7000 + x * 256 + kk2,
    ensures
        ({
            let first = step(s, key1, rnd1);
            let second = step(first.state, key2, rnd2);
            &&& first.result is Ok
            &&& second.result is Ok
            &&& second.state.v == s.v.update(x as int, ((kk + kk2) % 256) as u8)
        }),
{
    let op1 = opcode_at(s.memory, s.pc as int);
    let op2 = opcode_at(s.memory, s.pc + 2);
    assert(family(op1) == 6 && reg_x(op1) == x && low_byte(op1) == kk);
    assert(family(op2) == 7 && reg_x(op2) == x && low_byte(op2) == kk2);
    let first = step(s, key1, rnd1);
    assert(first.state.memory == s.memory);
    assert(first.state.pc == s.pc + 2);
    assert(first.state.v == s.v.update(x as int, kk));
    assert(step(first.state, key2, rnd2).state.v =~= s.v.update(x as int, ((kk + kk2) % 256) as u8));
}

/// A call to `addr` whose subroutine begins with a return brings execution
/// back to the instruction right after the call, with the call stack as it was.
pub proof fn lemma_call_return(s: MachineState, addr: u16, key1: u8, rnd1: u8, key2: u8, rnd2: u8)
    requires
        s.memory.len() == MEMORY_SIZE,
        s.stack.len() < STACK_CAPACITY,
        s.pc + 1 < MEMORY_SIZE,
        addr + 1 < MEMORY_SIZE,
        opcode_at(s.memory, s.pc as int) == 0x2000 + addr,
        opcode_at(s.memory, addr as int) == 0x00EE,
    ensures
        ({
            let call = step(s, key1, rnd1);
            let ret = step(call.state, key2, rnd2);
            &&& call.result is Ok
            &&& ret.result is Ok
            &&& ret.state.pc == s.pc + 2
            &&& ret.state.stack == s.stack
        }),
{
    let call = step(s, key1, rnd1);
    assert(call.state.pc == addr);
    assert(call.state.stack == s.stack.push((s.pc + 2) as u16));
    reveal(exec_system);
    assert(call.state.stack.drop_last() =~= s.stack);
}

/// Whether the instruction at the program counter loads the delay timer.
pub open spec fn loads_delay_timer(s: MachineState) -> bool {
    let op = opcode_at(s.memory, s.pc as int);
    family(op) == 15 && low_byte(op) == 0x15
}

/// A cycle that completes, and does not load the delay timer, ticks the
/// delay timer exactly once.
pub proof fn lemma_delay_ticks(s: MachineState, key: u8, rnd: u8)
    requires
        step(s, key, rnd).result is Ok,
        !loads_delay_timer(s),
    ensures
        step(s, key, rnd).state.delay_timer == tick(s.delay_timer),
{
    reveal(exec_system);
    reveal(exec_arith);
    reveal(exec_draw);
    reveal(exec_key);
    reveal(exec_misc);
}

/// Over a run of cycles that all complete and none of which loads the delay
/// timer, the delay timer goes down by one per cycle until it reaches zero,
/// and never below zero.
pub proof fn lemma_timer_decay(states: Seq<MachineState>, keys: Seq<u8>, rnds: Seq<u8>)
    requires
        states.len() == keys.len() + 1,
        rnds.len() == keys.len(),
        forall|i: int|
            0 <= i < keys.len() ==> {
                let st = #[trigger] step(states[i], keys[i], rnds[i]);
                &&& st.result is Ok
                &&& st.state == states[i + 1]
                &&& !loads_delay_timer(states[i])
            },
    ensures
        states.last().delay_timer == if states[0].delay_timer >= keys.len() {
            states[0].delay_timer - keys.len()
        } else {
            0
        },
    decreases keys.len(),
{
    let n = keys.len() as int;
    if n > 0 {
        let prefix = states.drop_last();
        assert forall|i: int| 0 <= i < n - 1 implies {
            let st = #[trigger] step(prefix[i], keys.drop_last()[i], rnds.drop_last()[i]);
            &&& st.result is Ok
            &&& st.state == prefix[i + 1]
            &&& !loads_delay_timer(prefix[i])
        } by {
            assert(step(states[i], keys[i], rnds[i]).result is Ok);
        }
        lemma_timer_decay(prefix, keys.drop_last(), rnds.drop_last());
        assert(step(states[n - 1], keys[n - 1], rnds[n - 1]).result is Ok);
        lemma_delay_ticks(states[n - 1], keys[n - 1], rnds[n - 1]);
    }
}

/// A skip-if-key-pressed instruction on register `x` moves the program
/// counter two bytes further when the asserted key equals `v[x]` than when
/// any other key, or none, is asserted.
pub proof fn lemma_key_skip(s: MachineState, x: u8, other: u8, rnd1: u8, rnd2: u8)
    requires
        s.memory.len() == MEMORY_SIZE,
        s.v.len() == REGISTERS,
        x < 16,
        s.v[x as int] < 16,
        other != s.v[x as int],
        s.pc + 1 < MEMORY_SIZE,
        opcode_at(s.memory, s.pc as int) == 0xE09E + x * 256,
    ensures
        ({
            let hit = step(s, s.v[x as int], rnd1);
            let miss = step(s, other, rnd2);
            &&& hit.result is Ok
            &&& miss.result is Ok
            &&& hit.state.pc == miss.state.pc + 2
        }),
{
    let op = opcode_at(s.memory, s.pc as int);
    assert(family(op) == 14 && reg_x(op) == x && low_byte(op) == 0x9E);
    reveal(exec_key);
}

/// No cycle takes the call stack past its capacity.
pub proof fn lemma_stack_bounded(s: MachineState, key: u8, rnd: u8)
    requires
        s.stack.len() <= STACK_CAPACITY,
    ensures
        step(s, key, rnd).state.stack.len() <= STACK_CAPACITY,
{
    reveal(exec_system);
    reveal(exec_arith);
    reveal(exec_draw);
    reveal(exec_key);
    reveal(exec_misc);
}

} // verus!
