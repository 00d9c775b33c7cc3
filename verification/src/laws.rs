//! Laws of the machine: what follows from the rules of [`Machine::step`] for
//! every state, proved once.

use vstd::prelude::*;
use crate::fontset::FONTSET;
use crate::graphics::{
    blank, drawn, is_binary, is_visible, lemma_draw_keeps_binary, lemma_draw_twice_restores,
    lemma_second_draw_collides, lit,
};
use crate::instruction::{lemma_decoded_is_wf, spec_decode, Instruction};
use crate::model::{
    any_pressed, is_lowest_pressed, key_states, lemma_lowest_pressed, ticked_times, with_program,
    Machine, Quirks,
};

verus! {

impl Machine {
    /// The state after one cycle for each entry of `inputs`, in order. An
    /// entry holds the random byte and the frame-pacing decision of its cycle.
    pub open spec fn after_steps(self, inputs: Seq<(u8, bool)>) -> Machine
        decreases inputs.len(),
    {
        if inputs.len() == 0 {
            self
        } else {
            self.after_steps(inputs.drop_last()).after_step(inputs.last().0, inputs.last().1)
        }
    }

    /// The state after `ticks` ticks of the 60 Hz clock.
    pub open spec fn ticks(self, ticks: nat) -> Machine
        decreases ticks,
    {
        if ticks == 0 {
            self
        } else {
            self.ticks((ticks - 1) as nat).tick()
        }
    }
}

/// The state after initialisation: the program counter is at `0x200`, the
/// stack is empty, the index register and every register, stack slot, screen
/// cell, key state and timer is zero, and memory holds the font table at
/// `0x50..0x50 + 80` and zero everywhere else.
pub proof fn lemma_initial_state(quirks: Quirks)
    ensures
        Machine::initial(quirks).inv(),
        Machine::initial(quirks).pc == 0x200,
        Machine::initial(quirks).sp == 0,
        Machine::initial(quirks).i == 0,
        Machine::initial(quirks).opcode == 0,
        Machine::initial(quirks).delay_timer == 0,
        Machine::initial(quirks).sound_timer == 0,
        forall|k: int| 0 <= k < 16 ==> #[trigger] Machine::initial(quirks).v[k] == 0,
        forall|k: int| 0 <= k < 16 ==> #[trigger] Machine::initial(quirks).stack[k] == 0,
        forall|k: int| 0 <= k < 16 ==> #[trigger] Machine::initial(quirks).keys[k] == 0,
        forall|k: int| 0 <= k < 2048 ==> #[trigger] Machine::initial(quirks).gfx[k] == 0,
        forall|k: int|
            0 <= k < 80 ==> #[trigger] Machine::initial(quirks).memory[0x50 + k]
                == FONTSET@[k],
        forall|a: int|
            0 <= a < 4096 && !(0x50 <= a < 0x50 + 80) ==> #[trigger] Machine::initial(
                quirks,
            ).memory[a] == 0,
{
}

/// Loading writes `program[k]` to `memory[0x200 + k]` for every `k`, and no
/// other byte.
pub proof fn lemma_loaded_program(memory: Seq<u8>, program: Seq<u8>)
    requires
        memory.len() == 4096,
        program.len() <= 3584,
    ensures
        with_program(memory, program).len() == 4096,
        forall|k: int|
            0 <= k < program.len() ==> #[trigger] with_program(memory, program)[0x200 + k]
                == program[k],
        forall|a: int|
            0 <= a < 4096 && !(0x200 <= a < 0x200 + program.len()) ==> #[trigger] with_program(
                memory,
                program,
            )[a] == memory[a],
{
}

/// A cycle keeps what holds from initialisation on: the lengths of the
/// arrays, a stack pointer of at most 16, and screen cells and key states
/// that are 0 or 1.
pub proof fn lemma_step_keeps_inv(m: Machine, random: u8, throttled: bool)
    requires
        m.inv(),
    ensures
        m.after_step(random, throttled).inv(),
{
    match m.fetch() {
        None => {},
        Some(word) => match spec_decode(word) {
            None => {},
            Some(instr) => {
                lemma_execute_keeps_inv(m, instr, random, throttled);
            },
        },
    }
}

/// An instruction keeps what holds from initialisation on.
pub proof fn lemma_execute_keeps_inv(m: Machine, instr: Instruction, random: u8, throttled: bool)
    requires
        m.inv(),
    ensures
        m.execute(instr, random, throttled) matches Some(next) ==> next.inv(),
{
    match m.execute(instr, random, throttled) {
        None => {},
        Some(next) => {
            match instr {
                Instruction::Draw { x, y, rows } => {
                    if !throttled {
                        let x0 = m.v[x as int] as int % 64;
                        let y0 = m.v[y as int] as int % 32;
                        let height = Machine::clipped_rows(rows as int, y0);
                        let sprite = m.memory.subrange(m.i as int, m.i + height);
                        lemma_draw_keeps_binary(m.gfx, sprite, x0, y0);
                    }
                },
                _ => {},
            }
        },
    }
}

/// Only `Cxnn` looks at the random byte: a cycle on any other word has the
/// same outcome whatever the byte.
pub proof fn lemma_random_matters_to_cxnn_only(m: Machine, first: u8, second: u8, throttled: bool)
    requires
        !m.draws_random(),
    ensures
        m.step(first, throttled) == m.step(second, throttled),
{
}

/// `00E0` clears every cell of the screen, whatever it held, and moves the
/// program counter on by 2; nothing else changes but the remembered word.
pub proof fn lemma_clear_screen(m: Machine, random: u8, throttled: bool)
    requires
        m.fetch() == Some(0x00E0u16),
    ensures
        m.step(random, throttled) == Some(
            Machine { gfx: blank(2048), pc: (m.pc + 2) as u16, opcode: 0x00E0, ..m },
        ),
        forall|k: int| 0 <= k < 2048 ==> #[trigger] m.after_step(random, throttled).gfx[k] == 0,
        m.after_step(random, throttled).pc == m.pc + 2,
{
    assert(spec_decode(0x00E0u16) == Some(Instruction::ClearScreen));
}

/// A call that is executed and then followed by a return brings the program
/// counter to the instruction after the call and the stack pointer back to
/// what it was. The return itself cannot halt.
pub proof fn lemma_call_then_return(
    m: Machine,
    addr: u16,
    call_input: (u8, bool),
    return_input: (u8, bool),
)
    requires
        m.wf(),
        m.fetch() matches Some(word) && spec_decode(word) == Some(Instruction::Call { addr }),
        ({
            &&& m.step(call_input.0, call_input.1) matches Some(called)
            &&& called.fetch() matches Some(word)
            &&& spec_decode(word) == Some(Instruction::Return)
        }),
    ensures
        ({
            &&& m.step(call_input.0, call_input.1) matches Some(called)
            &&& called.pc == addr
            &&& called.sp == m.sp + 1
            &&& called.step(return_input.0, return_input.1) matches Some(returned)
            &&& returned.pc == m.pc + 2
            &&& returned.sp == m.sp
        }),
{
}

/// `Fx0A` with no key down changes nothing but the remembered word: the
/// program counter stays on the instruction.
pub proof fn lemma_wait_key_stalls(m: Machine, x: usize, random: u8, throttled: bool)
    requires
        m.fetch() matches Some(word) && spec_decode(word) == Some(Instruction::WaitKey { x }),
        !any_pressed(m.keys),
    ensures
        m.step(random, throttled) == Some(Machine { opcode: m.fetch().unwrap(), ..m }),
        m.after_step(random, throttled).pc == m.pc,
{
    let word = m.fetch().unwrap();
    lemma_decoded_is_wf(word);
}

/// `Fx0A` with no key down stalls for as many cycles as are run: after each
/// of them the program counter is still on the instruction and nothing has
/// changed but the remembered word.
pub proof fn lemma_wait_key_stalls_repeatedly(m: Machine, x: usize, inputs: Seq<(u8, bool)>)
    requires
        m.fetch() matches Some(word) && spec_decode(word) == Some(Instruction::WaitKey { x }),
        !any_pressed(m.keys),
        inputs.len() > 0,
    ensures
        m.after_steps(inputs) == (Machine { opcode: m.fetch().unwrap(), ..m }),
        m.after_steps(inputs).pc == m.pc,
    decreases inputs.len(),
{
    let word = m.fetch().unwrap();
    let stalled = Machine { opcode: word, ..m };
    let (random, throttled) = inputs.last();
    if inputs.len() == 1 {
        assert(inputs.drop_last().len() == 0);
        assert(m.after_steps(inputs.drop_last()) == m);
        lemma_wait_key_stalls(m, x, random, throttled);
    } else {
        lemma_wait_key_stalls_repeatedly(m, x, inputs.drop_last());
        assert(stalled.fetch() == m.fetch());
        lemma_wait_key_stalls(stalled, x, random, throttled);
    }
}

/// `Fx0A` with a key down moves the program counter on by 2, once, and
/// stores the lowest key that is down in `v[x]`.
pub proof fn lemma_wait_key_resumes(m: Machine, x: usize, key: int, random: u8, throttled: bool)
    requires
        m.fetch() matches Some(word) && spec_decode(word) == Some(Instruction::WaitKey { x }),
        is_lowest_pressed(m.keys, key),
        m.wf(),
    ensures
        m.step(random, throttled) == Some(
            Machine {
                opcode: m.fetch().unwrap(),
                pc: (m.pc + 2) as u16,
                v: m.v.update(x as int, key as u8),
                ..m
            },
        ),
        m.after_step(random, throttled).pc == m.pc + 2,
        m.after_step(random, throttled).v[x as int] == key,
{
    let word = m.fetch().unwrap();
    lemma_decoded_is_wf(word);
    lemma_lowest_pressed(m.keys, key);
}

/// A timer that holds `timer` is, after `ticks` ticks, down by `ticks`, or at
/// zero if that would be less: it never wraps below zero.
pub proof fn lemma_ticked_times(timer: u8, ticks: nat)
    ensures
        ticked_times(timer, ticks) == if ticks >= timer {
            0
        } else {
            timer - ticks
        },
    decreases ticks,
{
    if ticks > 0 {
        lemma_ticked_times(timer, (ticks - 1) as nat);
    }
}

/// After `ticks` ticks both timers are down by `ticks`, or at zero if that
/// would be less, and nothing else has changed. In particular a timer set to
/// less than `ticks` is zero.
pub proof fn lemma_ticks(m: Machine, ticks: nat)
    ensures
        m.ticks(ticks) == (Machine {
            delay_timer: ticked_times(m.delay_timer, ticks),
            sound_timer: ticked_times(m.sound_timer, ticks),
            ..m
        }),
        m.delay_timer <= ticks ==> m.ticks(ticks).delay_timer == 0,
        m.sound_timer <= ticks ==> m.ticks(ticks).sound_timer == 0,
        m.ticks(ticks).delay_timer <= m.delay_timer,
        m.ticks(ticks).sound_timer <= m.sound_timer,
    decreases ticks,
{
    if ticks > 0 {
        lemma_ticks(m, (ticks - 1) as nat);
    }
    lemma_ticked_times(m.delay_timer, ticks);
    lemma_ticked_times(m.sound_timer, ticks);
}

/// `Dxyn` twice at the same place: where the sprite lies on dark cells only,
/// the first draw leaves the flag at 0; the second restores the screen and
/// sets the flag to 1, unless the sprite has no set pixel on the screen, in
/// which case the flag stays at 0.
///
/// The coordinates come from registers other than `v[0xF]`, which the first
/// draw overwrites.
pub proof fn lemma_draw_then_redraw(m: Machine, x: int, y: int, rows: int)
    requires
        m.wf(),
        0 <= x < 15,
        0 <= y < 15,
        m.draw(x, y, rows).is_some(),
        forall|k: int|
            lit(m.sprite(y, rows), m.v[x] as int % 64, m.v[y] as int % 32, k)
                ==> #[trigger] m.gfx[k] == 0,
    ensures
        ({
            &&& m.draw(x, y, rows) matches Some(first)
            &&& first.v[0xF] == 0
            &&& first.draw(x, y, rows) matches Some(second)
            &&& second.gfx == m.gfx
            &&& second.v[0xF] == if is_visible(
                m.sprite(y, rows),
                m.v[x] as int % 64,
                m.v[y] as int % 32,
            ) {
                1u8
            } else {
                0u8
            }
        }),
{
    let x0 = m.v[x] as int % 64;
    let y0 = m.v[y] as int % 32;
    let sprite = m.sprite(y, rows);
    let first = m.draw(x, y, rows).unwrap();
    assert(first.v[x] == m.v[x] && first.v[y] == m.v[y]);
    assert(first.gfx == drawn(m.gfx, sprite, x0, y0));
    lemma_draw_twice_restores(m.gfx, sprite, x0, y0);
    lemma_second_draw_collides(m.gfx, sprite, x0, y0);
}

/// Recording the host's key states keeps what holds from initialisation on.
pub proof fn lemma_key_states_are_binary(down: Seq<bool>)
    ensures
        is_binary(key_states(down)),
        key_states(down).len() == down.len(),
{
}

} // verus!
