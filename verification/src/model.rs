//! The machine as a mathematical value, and what one instruction does to it.
//!
//! [`Machine`] is the view of the processor: the same fields, with sequences in
//! place of arrays. [`Machine::step`] is the whole fetch-decode-execute rule as
//! one function from a state, the random byte that `Cxnn` would draw and the
//! frame-pacing decision for `Dxyn`, to the next state, or to `None` where
//! the machine halts and keeps its state.

use vstd::prelude::*;
use crate::fontset::FONTSET;
use crate::graphics::{blank, collides, drawn, is_binary};
use crate::instruction::{spec_decode, Instruction};
use crate::timing::spec_draw_throttled;

verus! {

/// Behaviours on which interpreters of this instruction set differ.
#[derive(Clone, Copy, Debug, PartialEq, Eq, Structural)]
pub struct Quirks {
    /// `8xy6` and `8xyE` shift `v[y]` into `v[x]`; when off, they shift `v[x]`
    /// in place and ignore `y`.
    pub shift_uses_vy: bool,
    /// `Fx55` and `Fx65` leave `i` advanced by `x + 1`; when off, `i` is kept.
    pub index_advances: bool,
    /// `Dxyn` waits for the start of a frame: issued later in the frame, it
    /// stalls without effect and is executed again on the next cycle.
    pub draw_waits_for_frame: bool,
}

impl Default for Quirks {
    /// The behaviour of the COSMAC VIP, the first machine to run this
    /// instruction set: all three quirks on.
    fn default() -> (quirks: Quirks)
        ensures
            quirks == Quirks::spec_default(),
    {
        Quirks { shift_uses_vy: true, index_advances: true, draw_waits_for_frame: true }
    }
}

impl Quirks {
    /// The behaviour of the COSMAC VIP, the first machine to run this
    /// instruction set: all three quirks on.
    pub open spec fn spec_default() -> Quirks {
        Quirks { shift_uses_vy: true, index_advances: true, draw_waits_for_frame: true }
    }
}

/// The state of the machine.
pub struct Machine {
    /// The word that the last executed cycle fetched.
    pub opcode: u16,
    /// The sixteen general registers; `v[0xF]` doubles as the flag.
    pub v: Seq<u8>,
    pub delay_timer: u8,
    pub sound_timer: u8,
    /// The 4096 bytes of memory.
    pub memory: Seq<u8>,
    /// The index register.
    pub i: u16,
    /// The program counter.
    pub pc: u16,
    /// The 2048 cells of the screen, row-major.
    pub gfx: Seq<u8>,
    /// The sixteen slots of the call stack, growing from slot 0.
    pub stack: Seq<u16>,
    /// The number of return addresses on the stack.
    pub sp: u16,
    /// The state of the sixteen keys: 1 down, 0 up.
    pub keys: Seq<u8>,
    pub quirks: Quirks,
}

/// Whether some key is down.
pub open spec fn any_pressed(keys: Seq<u8>) -> bool {
    exists|k: int| 0 <= k < keys.len() && #[trigger] keys[k] == 1
}

/// Whether `k` is the lowest key that is down.
pub open spec fn is_lowest_pressed(keys: Seq<u8>, k: int) -> bool {
    &&& 0 <= k < keys.len()
    &&& keys[k] == 1
    &&& forall|j: int| 0 <= j < k ==> #[trigger] keys[j] != 1
}

/// The lowest key that is down, where there is one.
pub open spec fn lowest_pressed(keys: Seq<u8>) -> int {
    choose|k: int| is_lowest_pressed(keys, k)
}

/// There is at most one lowest key that is down, and `lowest_pressed` is it.
pub proof fn lemma_lowest_pressed(keys: Seq<u8>, k: int)
    requires
        is_lowest_pressed(keys, k),
    ensures
        any_pressed(keys),
        lowest_pressed(keys) == k,
{
    let c = lowest_pressed(keys);
    assert(is_lowest_pressed(keys, c));
    if c < k {
        assert(keys[c] != 1);
    } else if k < c {
        assert(keys[k] != 1);
    }
}

/// Memory after `Fx55`: registers `0..=x` stored from address `i` on.
pub open spec fn stored(memory: Seq<u8>, v: Seq<u8>, i: int, x: int) -> Seq<u8> {
    Seq::new(
        memory.len(),
        |a: int|
            if i <= a <= i + x {
                v[a - i]
            } else {
                memory[a]
            },
    )
}

/// Registers after `Fx65`: registers `0..=x` loaded from address `i` on.
pub open spec fn loaded(v: Seq<u8>, memory: Seq<u8>, i: int, x: int) -> Seq<u8> {
    Seq::new(
        v.len(),
        |r: int|
            if r <= x {
                memory[i + r]
            } else {
                v[r]
            },
    )
}

/// Memory after initialisation: the font table at `0x50`, zero elsewhere.
pub open spec fn font_memory() -> Seq<u8> {
    Seq::new(
        4096,
        |a: int|
            if 0x50 <= a < 0x50 + 80 {
                FONTSET@[a - 0x50]
            } else {
                0u8
            },
    )
}

/// Memory after `program` was loaded at `0x200`.
pub open spec fn with_program(memory: Seq<u8>, program: Seq<u8>) -> Seq<u8> {
    Seq::new(
        memory.len(),
        |a: int|
            if 0x200 <= a < 0x200 + program.len() {
                program[a - 0x200]
            } else {
                memory[a]
            },
    )
}

/// A timer after one tick of the 60 Hz clock.
pub open spec fn ticked(timer: u8) -> u8 {
    if timer > 0 {
        (timer - 1) as u8
    } else {
        0
    }
}

/// A timer after `ticks` ticks of the 60 Hz clock.
pub open spec fn ticked_times(timer: u8, ticks: nat) -> u8
    decreases ticks,
{
    if ticks == 0 {
        timer
    } else {
        ticked(ticked_times(timer, (ticks - 1) as nat))
    }
}

/// The key states that the host reports: 1 for a key that is down, 0 for one
/// that is up.
pub open spec fn key_states(down: Seq<bool>) -> Seq<u8> {
    Seq::new(
        down.len(),
        |k: int|
            if down[k] {
                1u8
            } else {
                0u8
            },
    )
}

impl Machine {
    /// Every array has its length.
    pub open spec fn wf(self) -> bool {
        &&& self.v.len() == 16
        &&& self.memory.len() == 4096
        &&& self.gfx.len() == 2048
        &&& self.stack.len() == 16
        &&& self.keys.len() == 16
    }

    /// What holds of the machine from initialisation on: the stack pointer
    /// stays within the stack, and screen cells and key states are 0 or 1.
    pub open spec fn inv(self) -> bool {
        &&& self.wf()
        &&& self.sp <= 16
        &&& is_binary(self.gfx)
        &&& is_binary(self.keys)
    }

    /// A machine with every field zero.
    pub open spec fn zeroed(quirks: Quirks) -> Machine {
        Machine {
            opcode: 0,
            v: blank(16),
            delay_timer: 0,
            sound_timer: 0,
            memory: blank(4096),
            i: 0,
            pc: 0,
            gfx: blank(2048),
            stack: Seq::new(16, |k: int| 0u16),
            sp: 0,
            keys: blank(16),
            quirks,
        }
    }

    /// The machine after initialisation: every field zero, but for the program
    /// counter at `0x200` and the font table in memory.
    pub open spec fn initial(quirks: Quirks) -> Machine {
        Machine { pc: 0x200, memory: font_memory(), ..Machine::zeroed(quirks) }
    }

    /// The big-endian word at the program counter; `None` where the word
    /// would reach beyond the end of memory.
    pub open spec fn fetch(self) -> Option<u16> {
        if self.pc + 1 < 4096 {
            Some((self.memory[self.pc as int] * 256 + self.memory[self.pc + 1]) as u16)
        } else {
            None
        }
    }

    /// The program counter moved past the current instruction.
    pub open spec fn advanced(self) -> Machine {
        Machine { pc: (self.pc + 2) as u16, ..self }
    }

    /// The program counter moved past the current instruction and, where
    /// `skip` holds, past the next one too.
    pub open spec fn skipped(self, skip: bool) -> Machine {
        Machine {
            pc: if skip {
                (self.pc + 4) as u16
            } else {
                (self.pc + 2) as u16
            },
            ..self
        }
    }

    /// Register `x` set to `value`.
    pub open spec fn with_register(self, x: int, value: u8) -> Machine {
        Machine { v: self.v.update(x, value), ..self }
    }

    /// The flag register `v[0xF]` set to `value`.
    pub open spec fn with_flag(self, value: u8) -> Machine {
        self.with_register(0xF, value)
    }

    /// The register that `8xy6` and `8xyE` shift.
    pub open spec fn shift_source(self, x: int, y: int) -> u8 {
        if self.quirks.shift_uses_vy {
            self.v[y]
        } else {
            self.v[x]
        }
    }

    /// The index register after `Fx55` or `Fx65` on registers `0..=x`.
    pub open spec fn index_after(self, x: int) -> u16 {
        if self.quirks.index_advances {
            (self.i + x + 1) as u16
        } else {
            self.i
        }
    }

    /// Rows of a sprite of `rows` rows that fit on the screen from row `y0` on.
    pub open spec fn clipped_rows(rows: int, y0: int) -> int {
        if y0 + rows > 32 {
            32 - y0
        } else {
            rows
        }
    }

    /// The rows of the sprite that `Dxyn` draws with `v[y]` as its row: those
    /// of its `rows` rows at `memory[i..]` that fit on the screen.
    pub open spec fn sprite(self, y: int, rows: int) -> Seq<u8> {
        self.memory.subrange(
            self.i as int,
            self.i + Machine::clipped_rows(rows, self.v[y] as int % 32),
        )
    }

    /// `Dxyn`: the sprite at `memory[i..]` drawn at `(v[x] % 64, v[y] % 32)`,
    /// clipped at the edges, with the flag telling whether a set cell was
    /// turned off. `None` where a row that is drawn lies beyond memory.
    pub open spec fn draw(self, x: int, y: int, rows: int) -> Option<Machine> {
        let x0 = self.v[x] as int % 64;
        let y0 = self.v[y] as int % 32;
        let sprite = self.sprite(y, rows);
        if self.i + Machine::clipped_rows(rows, y0) <= 4096 {
            Some(
                Machine {
                    gfx: drawn(self.gfx, sprite, x0, y0),
                    ..self.advanced().with_flag(
                        if collides(self.gfx, sprite, x0, y0) {
                            1
                        } else {
                            0
                        },
                    )
                },
            )
        } else {
            None
        }
    }

    /// The register-to-register instructions `8xyn`.
    pub open spec fn alu(self, instr: Instruction) -> Machine {
        let next = self.advanced();
        match instr {
            Instruction::Move { x, y } => next.with_register(x as int, self.v[y as int]),
            Instruction::Or { x, y } => next.with_register(
                x as int,
                self.v[x as int] | self.v[y as int],
            ).with_flag(0),
            Instruction::And { x, y } => next.with_register(
                x as int,
                self.v[x as int] & self.v[y as int],
            ).with_flag(0),
            Instruction::Xor { x, y } => next.with_register(
                x as int,
                self.v[x as int] ^ self.v[y as int],
            ).with_flag(0),
            Instruction::Add { x, y } => {
                let sum = self.v[x as int] + self.v[y as int];
                next.with_register(x as int, (sum % 256) as u8).with_flag(
                    if sum > 255 {
                        1
                    } else {
                        0
                    },
                )
            },
            Instruction::Sub { x, y } => {
                let difference = self.v[x as int] - self.v[y as int];
                next.with_register(x as int, (difference % 256) as u8).with_flag(
                    if difference < 0 {
                        0
                    } else {
                        1
                    },
                )
            },
            Instruction::ShiftRight { x, y } => {
                let source = self.shift_source(x as int, y as int);
                next.with_register(x as int, source >> 1).with_flag(source & 1)
            },
            Instruction::SubFrom { x, y } => {
                let difference = self.v[y as int] - self.v[x as int];
                next.with_register(x as int, (difference % 256) as u8).with_flag(
                    if difference < 0 {
                        0
                    } else {
                        1
                    },
                )
            },
            Instruction::ShiftLeft { x, y } => {
                let source = self.shift_source(x as int, y as int);
                next.with_register(x as int, source << 1).with_flag((source >> 7) & 1)
            },
            _ => self,
        }
    }

    /// The instructions that jump, call, return or skip.
    pub open spec fn flow(self, instr: Instruction) -> Option<Machine> {
        match instr {
            Instruction::Return => if 1 <= self.sp <= 16 {
                Some(Machine { sp: (self.sp - 1) as u16, pc: self.stack[self.sp - 1], ..self })
            } else {
                None
            },
            Instruction::Jump { addr } => Some(Machine { pc: addr, ..self }),
            Instruction::Call { addr } => if self.sp < 16 {
                Some(
                    Machine {
                        stack: self.stack.update(self.sp as int, (self.pc + 2) as u16),
                        sp: (self.sp + 1) as u16,
                        pc: addr,
                        ..self
                    },
                )
            } else {
                None
            },
            Instruction::JumpOffset { addr } => Some(
                Machine { pc: (addr + self.v[0]) as u16, ..self },
            ),
            Instruction::SkipEqualByte { x, byte } => Some(self.skipped(self.v[x as int] == byte)),
            Instruction::SkipNotEqualByte { x, byte } => Some(
                self.skipped(self.v[x as int] != byte),
            ),
            Instruction::SkipEqual { x, y } => Some(
                self.skipped(self.v[x as int] == self.v[y as int]),
            ),
            Instruction::SkipNotEqual { x, y } => Some(
                self.skipped(self.v[x as int] != self.v[y as int]),
            ),
            Instruction::SkipKeyDown { x } => if self.v[x as int] < 16 {
                Some(self.skipped(self.keys[self.v[x as int] as int] == 1))
            } else {
                None
            },
            Instruction::SkipKeyUp { x } => if self.v[x as int] < 16 {
                Some(self.skipped(self.keys[self.v[x as int] as int] == 0))
            } else {
                None
            },
            _ => None,
        }
    }

    /// The instructions that read or write memory through `i`.
    pub open spec fn transfer(self, instr: Instruction) -> Option<Machine> {
        let next = self.advanced();
        match instr {
            Instruction::SetIndex { addr } => Some(Machine { i: addr, ..next }),
            Instruction::AddIndex { x } => if self.i + self.v[x as int] <= 0xFFFF {
                Some(Machine { i: (self.i + self.v[x as int]) as u16, ..next })
            } else {
                None
            },
            Instruction::Glyph { x } => Some(
                Machine { i: (self.v[x as int] * 5 + 0x50) as u16, ..next },
            ),
            Instruction::StoreBcd { x } => if self.i + 2 < 4096 {
                let value = self.v[x as int];
                Some(
                    Machine {
                        memory: self.memory.update(self.i as int, value / 100).update(
                            self.i + 1,
                            (value / 10) % 10,
                        ).update(self.i + 2, value % 10),
                        ..next
                    },
                )
            } else {
                None
            },
            Instruction::StoreRegisters { x } => if self.i + x < 4096 {
                Some(
                    Machine {
                        memory: stored(self.memory, self.v, self.i as int, x as int),
                        i: self.index_after(x as int),
                        ..next
                    },
                )
            } else {
                None
            },
            Instruction::LoadRegisters { x } => if self.i + x < 4096 {
                Some(
                    Machine {
                        v: loaded(self.v, self.memory, self.i as int, x as int),
                        i: self.index_after(x as int),
                        ..next
                    },
                )
            } else {
                None
            },
            _ => None,
        }
    }

    /// The state after `instr`, with the program counter still at the
    /// instruction when it starts.
    ///
    /// `random` is the byte that `Cxnn` draws, `throttled` says that `Dxyn`
    /// has to wait for the next frame. The result is `None` where the machine
    /// halts: the operands of `instr` are out of range, no instruction fits
    /// at the program counter, the stack would be left, a key code or an
    /// address is out of range, or `i` would leave its sixteen bits.
    pub open spec fn execute(self, instr: Instruction, random: u8, throttled: bool) -> Option<
        Machine,
    > {
        let next = self.advanced();
        if !instr.wf() || self.pc + 1 >= 4096 {
            None
        } else {
            match instr {
                Instruction::ClearScreen => Some(Machine { gfx: blank(2048), ..next }),
                Instruction::Return
                | Instruction::Jump { .. }
                | Instruction::Call { .. }
                | Instruction::JumpOffset { .. }
                | Instruction::SkipEqualByte { .. }
                | Instruction::SkipNotEqualByte { .. }
                | Instruction::SkipEqual { .. }
                | Instruction::SkipNotEqual { .. }
                | Instruction::SkipKeyDown { .. }
                | Instruction::SkipKeyUp { .. } => self.flow(instr),
                Instruction::SetByte { x, byte } => Some(next.with_register(x as int, byte)),
                Instruction::AddByte { x, byte } => Some(
                    next.with_register(x as int, ((self.v[x as int] + byte) % 256) as u8),
                ),
                Instruction::Move { .. }
                | Instruction::Or { .. }
                | Instruction::And { .. }
                | Instruction::Xor { .. }
                | Instruction::Add { .. }
                | Instruction::Sub { .. }
                | Instruction::ShiftRight { .. }
                | Instruction::SubFrom { .. }
                | Instruction::ShiftLeft { .. } => Some(self.alu(instr)),
                Instruction::Random { x, mask } => Some(next.with_register(x as int, random & mask)),
                Instruction::Draw { x, y, rows } => if throttled {
                    Some(self)
                } else {
                    self.draw(x as int, y as int, rows as int)
                },
                Instruction::GetDelay { x } => Some(next.with_register(x as int, self.delay_timer)),
                Instruction::WaitKey { x } => if any_pressed(self.keys) {
                    Some(next.with_register(x as int, lowest_pressed(self.keys) as u8))
                } else {
                    Some(self)
                },
                Instruction::SetDelay { x } => Some(
                    Machine { delay_timer: self.v[x as int], ..next },
                ),
                Instruction::SetSound { x } => Some(
                    Machine { sound_timer: self.v[x as int], ..next },
                ),
                Instruction::SetIndex { .. }
                | Instruction::AddIndex { .. }
                | Instruction::Glyph { .. }
                | Instruction::StoreBcd { .. }
                | Instruction::StoreRegisters { .. }
                | Instruction::LoadRegisters { .. } => self.transfer(instr),
            }
        }
    }

    /// One cycle: fetch the word at the program counter, decode it, execute
    /// it, and remember the word. `None` where the machine halts.
    pub open spec fn step(self, random: u8, throttled: bool) -> Option<Machine> {
        match self.fetch() {
            None => None,
            Some(word) => match spec_decode(word) {
                None => None,
                Some(instr) => match self.execute(instr, random, throttled) {
                    None => None,
                    Some(next) => Some(Machine { opcode: word, ..next }),
                },
            },
        }
    }

    /// The state after one cycle; a machine that halts keeps its state.
    pub open spec fn after_step(self, random: u8, throttled: bool) -> Machine {
        match self.step(random, throttled) {
            Some(next) => next,
            None => self,
        }
    }

    /// Whether the instruction at the program counter is `Cxnn`, the only one
    /// whose effect depends on the random byte.
    pub open spec fn draws_random(self) -> bool {
        self.fetch() matches Some(word) && spec_decode(word) matches Some(
            Instruction::Random { .. },
        )
    }

    /// Whether `Dxyn` has to wait for the next frame: the frame-wait quirk is
    /// on and the frame is past its first thirtieth.
    pub open spec fn throttled(self, time_since_frame: u128, frame_time: u128) -> bool {
        self.quirks.draw_waits_for_frame && spec_draw_throttled(time_since_frame, frame_time)
    }

    /// The state after one tick of the 60 Hz clock.
    pub open spec fn tick(self) -> Machine {
        Machine {
            delay_timer: ticked(self.delay_timer),
            sound_timer: ticked(self.sound_timer),
            ..self
        }
    }
}

} // verus!
