//! The processor: registers, memory and the fetch-decode-execute engine.

use vstd::prelude::*;
use vstd::array::spec_array_as_slice;
use crate::display::Display;
use crate::entropy::random_byte;
use crate::fontset::{FONTSET, FONTSET_SIZE};
use crate::graphics::{blank, draw_sprite, is_binary, SCREEN_HEIGHT, SCREEN_WIDTH};
use crate::instruction::{decode, spec_decode, Instruction};
use crate::laws::{lemma_execute_keeps_inv, lemma_step_keeps_inv};
use crate::model::{
    any_pressed, is_lowest_pressed, key_states, lemma_lowest_pressed, loaded, stored, with_program,
    Machine, Quirks,
};
use crate::timing::{draw_throttled, frame_due};

verus! {

/// Address at which a program is loaded and starts.
pub const PROGRAM_START: u16 = 0x200;

/// Bytes of memory.
pub const MEMORY_SIZE: usize = 4096;

/// Address of the font table.
pub const FONTSET_START: usize = 0x50;

/// Length of the longest program that fits between `PROGRAM_START` and the
/// end of memory.
pub const MAX_PROGRAM_SIZE: usize = 3584;

/// Why a program was not loaded.
#[derive(Clone, Copy, Debug, PartialEq, Eq, Structural)]
pub enum LoadError {
    /// The program would reach beyond the end of memory.
    ProgramTooLarge,
}

/// The machine together with the host that shows its screen and reads its
/// keypad.
#[derive(Debug)]
pub struct CPU<D: Display> {
    /// The host that shows the screen and reads the keypad.
    pub display: D,
    /// The word that the last executed cycle fetched.
    pub opcode: u16,
    /// The general registers; `v[0xF]` doubles as the flag.
    pub v: [u8; 16],
    /// Counts down at 60 Hz; programs read and write it.
    pub delay_timer: u8,
    /// Counts down at 60 Hz; programs only write it.
    pub sound_timer: u8,
    pub memory: [u8; 4096],
    /// The index register.
    pub i: u16,
    /// The program counter.
    pub pc: u16,
    /// The screen, row-major: cell `x + y * 64` is 1 where the pixel is lit.
    pub gfx: [u8; 2048],
    pub stack: [u16; 16],
    /// The number of return addresses on the stack.
    pub sp: u16,
    /// The keypad: `keys[k]` is 1 while key `k` is down.
    pub keys: [u8; 16],
    pub quirks: Quirks,
}

impl<D: Display> View for CPU<D> {
    type V = Machine;

    open spec fn view(&self) -> Machine {
        Machine {
            opcode: self.opcode,
            v: self.v@,
            delay_timer: self.delay_timer,
            sound_timer: self.sound_timer,
            memory: self.memory@,
            i: self.i,
            pc: self.pc,
            gfx: self.gfx@,
            stack: self.stack@,
            sp: self.sp,
            keys: self.keys@,
            quirks: self.quirks,
        }
    }
}

impl<D: Display> CPU<D> {
    /// A machine with every field zero and the default quirks. It has no font
    /// and no program counter yet: see [`CPU::initialize`].
    pub fn new(display: D) -> (cpu: CPU<D>)
        ensures
            cpu@ == Machine::zeroed(Quirks::spec_default()),
            cpu.display == display,
    {
        let cpu = CPU {
            display,
            opcode: 0,
            v: [0;16],
            delay_timer: 0,
            sound_timer: 0,
            memory: [0;4096],
            i: 0,
            pc: 0,
            gfx: [0;2048],
            stack: [0;16],
            sp: 0,
            keys: [0;16],
            quirks: Quirks::default(),
        };
        proof {
            let zero = Machine::zeroed(Quirks::spec_default());
            assert(cpu@.v =~= zero.v);
            assert(cpu@.memory =~= zero.memory);
            assert(cpu@.gfx =~= zero.gfx);
            assert(cpu@.stack =~= zero.stack);
            assert(cpu@.keys =~= zero.keys);
        }
        cpu
    }

    /// Resets the machine: every register, timer, stack slot, screen cell, key
    /// state and byte of memory becomes zero, the font table is installed at
    /// `0x50` and the program counter is set to `0x200`. The quirks and the
    /// host are kept.
    pub fn initialize(&mut self)
        ensures
            final(self)@ == Machine::initial(old(self)@.quirks),
            final(self)@.inv(),
            final(self).display == old(self).display,
    {
        self.pc = PROGRAM_START;
        self.opcode = 0;
        self.i = 0;
        self.sp = 0;
        self.v = [0;16];
        self.memory = [0;4096];
        self.stack = [0;16];
        self.delay_timer = 0;
        self.sound_timer = 0;
        self.gfx = [0;2048];
        self.keys = [0;16];
        let ghost cleared = self@;
        let mut k: usize = 0;
        while k < FONTSET_SIZE
            invariant
                k <= 80,
                self.display == old(self).display,
                self@ == (Machine { memory: self.memory@, ..cleared }),
                forall|a: int|
                    0 <= a < 4096 ==> #[trigger] self.memory@[a] == if 0x50 <= a < 0x50 + k {
                        FONTSET@[a - 0x50]
                    } else {
                        0u8
                    },
            decreases 80 - k,
        {
            self.memory[k + FONTSET_START] = FONTSET[k];
            k += 1;
        }
        proof {
            let initial = Machine::initial(old(self)@.quirks);
            assert(self@.v =~= initial.v);
            assert(self@.memory =~= initial.memory);
            assert(self@.gfx =~= initial.gfx);
            assert(self@.stack =~= initial.stack);
            assert(self@.keys =~= initial.keys);
        }
    }

    /// Copies `input` into memory from `0x200` on.
    ///
    /// A program of more than 3584 bytes does not fit: it is refused and the
    /// machine is left as it was. Nothing but the bytes under the program is
    /// written: memory is not cleared first.
    pub fn load(&mut self, input: Vec<u8>) -> (result: Result<(), LoadError>)
        ensures
            input@.len() > 3584 ==> result == Err::<(), LoadError>(LoadError::ProgramTooLarge)
                && *final(self) == *old(self),
            input@.len() <= 3584 ==> result == Ok::<(), LoadError>(()) && final(self)@ == (Machine {
                memory: with_program(old(self)@.memory, input@),
                ..old(self)@
            }) && final(self).display == old(self).display,
    {
        let size = input.len();
        if size > MAX_PROGRAM_SIZE {
            return Err(LoadError::ProgramTooLarge);
        }
        let ghost before = self.memory@;
        let mut k: usize = 0;
        while k < size
            invariant
                k <= size,
                size == input@.len(),
                size <= 3584,
                before == old(self).memory@,
                self.display == old(self).display,
                self@ == (Machine { memory: self.memory@, ..old(self)@ }),
                forall|a: int|
                    0 <= a < 4096 ==> #[trigger] self.memory@[a] == if 0x200 <= a < 0x200 + k {
                        input@[a - 0x200]
                    } else {
                        before[a]
                    },
            decreases size - k,
        {
            self.memory[k + PROGRAM_START as usize] = input[k];
            k += 1;
        }
        assert(self@.memory =~= with_program(before, input@));
        Ok(())
    }

    /// The big-endian word at the program counter; `None` where it would
    /// reach beyond the end of memory.
    pub fn fetch(&self) -> (word: Option<u16>)
        ensures
            word == self@.fetch(),
    {
        if self.pc >= 4095 {
            return None;
        }
        let pc = self.pc as usize;
        let high = self.memory[pc];
        let low = self.memory[pc + 1];
        assert(((high as u16) << 8) | (low as u16) == high * 256 + low) by (bit_vector);
        Some(((high as u16) << 8) | (low as u16))
    }

    /// Executes one decoded instruction; the program counter still points at
    /// it. `random` is the byte that `Cxnn` uses, `throttled` tells `Dxyn` to
    /// wait for the next frame.
    ///
    /// Returns `false` where the machine halts, and then leaves it as it was:
    /// on operands out of range, a program counter at which no instruction
    /// fits, a return with an empty stack or a call with a full one, a key
    /// code above 15, an address beyond memory, or an index register that
    /// would leave its sixteen bits.
    pub fn execute(&mut self, instr: Instruction, random: u8, throttled: bool) -> (ok: bool)
        ensures
            ok == old(self)@.execute(instr, random, throttled).is_some(),
            ok ==> final(self)@ == old(self)@.execute(instr, random, throttled).unwrap(),
            !ok ==> *final(self) == *old(self),
            final(self).display == old(self).display,
            old(self)@.inv() ==> final(self)@.inv(),
    {
        proof {
            if self@.inv() {
                lemma_execute_keeps_inv(self@, instr, random, throttled);
            }
        }
        if !instr.is_wf() || self.pc >= 4095 {
            return false;
        }
        let next: u16 = self.pc + 2;
        match instr {
            Instruction::ClearScreen => {
                self.gfx = [0;2048];
                self.pc = next;
                assert(self.gfx@ =~= blank(2048));
                true
            },
            Instruction::Return
            | Instruction::Jump { .. }
            | Instruction::Call { .. }
            | Instruction::JumpOffset { .. }
            | Instruction::SkipEqualByte { .. }
            | Instruction::SkipNotEqualByte { .. }
            | Instruction::SkipEqual { .. }
            | Instruction::SkipNotEqual { .. }
            | Instruction::SkipKeyDown { .. }
            | Instruction::SkipKeyUp { .. } => self.execute_flow(instr),
            Instruction::SetByte { x, byte } => {
                self.v[x] = byte;
                self.pc = next;
                true
            },
            Instruction::AddByte { x, byte } => {
                self.v[x] = self.v[x].wrapping_add(byte);
                self.pc = next;
                true
            },
            Instruction::Move { .. }
            | Instruction::Or { .. }
            | Instruction::And { .. }
            | Instruction::Xor { .. }
            | Instruction::Add { .. }
            | Instruction::Sub { .. }
            | Instruction::ShiftRight { .. }
            | Instruction::SubFrom { .. }
            | Instruction::ShiftLeft { .. } => {
                self.execute_alu(instr);
                true
            },
            Instruction::Random { x, mask } => {
                self.v[x] = random & mask;
                self.pc = next;
                true
            },
            Instruction::Draw { x, y, rows } => {
                if throttled {
                    return true;
                }
                self.execute_draw(x, y, rows)
            },
            Instruction::GetDelay { x } => {
                self.v[x] = self.delay_timer;
                self.pc = next;
                true
            },
            Instruction::WaitKey { x } => {
                match lowest_pressed_key(&self.keys) {
                    Some(key) => {
                        proof {
                            lemma_lowest_pressed(self.keys@, key as int);
                        }
                        self.v[x] = key as u8;
                        self.pc = next;
                    },
                    None => {},
                }
                true
            },
            Instruction::SetDelay { x } => {
                self.delay_timer = self.v[x];
                self.pc = next;
                true
            },
            Instruction::SetSound { x } => {
                self.sound_timer = self.v[x];
                self.pc = next;
                true
            },
            Instruction::SetIndex { .. }
            | Instruction::AddIndex { .. }
            | Instruction::Glyph { .. }
            | Instruction::StoreBcd { .. }
            | Instruction::StoreRegisters { .. }
            | Instruction::LoadRegisters { .. } => self.execute_transfer(instr),
        }
    }

    /// The instructions that jump, call, return or skip.
    fn execute_flow(&mut self, instr: Instruction) -> (ok: bool)
        requires
            instr.wf(),
            old(self).pc + 1 < 4096,
        ensures
            ok == old(self)@.flow(instr).is_some(),
            ok ==> final(self)@ == old(self)@.flow(instr).unwrap(),
            !ok ==> *final(self) == *old(self),
            final(self).display == old(self).display,
    {
        let next: u16 = self.pc + 2;
        match instr {
            Instruction::Return => {
                if self.sp == 0 || self.sp > 16 {
                    return false;
                }
                self.sp -= 1;
                self.pc = self.stack[self.sp as usize];
                true
            },
            Instruction::Jump { addr } => {
                self.pc = addr;
                true
            },
            Instruction::Call { addr } => {
                if self.sp >= 16 {
                    return false;
                }
                self.stack[self.sp as usize] = next;
                self.sp += 1;
                self.pc = addr;
                true
            },
            Instruction::JumpOffset { addr } => {
                self.pc = addr + self.v[0] as u16;
                true
            },
            Instruction::SkipEqualByte { x, byte } => {
                self.skip_if(self.v[x] == byte);
                true
            },
            Instruction::SkipNotEqualByte { x, byte } => {
                self.skip_if(self.v[x] != byte);
                true
            },
            Instruction::SkipEqual { x, y } => {
                self.skip_if(self.v[x] == self.v[y]);
                true
            },
            Instruction::SkipNotEqual { x, y } => {
                self.skip_if(self.v[x] != self.v[y]);
                true
            },
            Instruction::SkipKeyDown { x } => {
                let key = self.v[x] as usize;
                if key >= 16 {
                    return false;
                }
                self.skip_if(self.keys[key] == 1);
                true
            },
            Instruction::SkipKeyUp { x } => {
                let key = self.v[x] as usize;
                if key >= 16 {
                    return false;
                }
                self.skip_if(self.keys[key] == 0);
                true
            },
            _ => false,
        }
    }

    /// Moves the program counter past the current instruction and, where
    /// `skip` holds, past the next one too.
    fn skip_if(&mut self, skip: bool)
        requires
            old(self).pc + 1 < 4096,
        ensures
            final(self)@ == old(self)@.skipped(skip),
            final(self).display == old(self).display,
    {
        self.pc = if skip {
            self.pc + 4
        } else {
            self.pc + 2
        };
    }

    /// The register-to-register instructions `8xyn`.
    fn execute_alu(&mut self, instr: Instruction)
        requires
            instr.wf(),
            old(self).pc + 1 < 4096,
        ensures
            final(self)@ == old(self)@.alu(instr),
            final(self).display == old(self).display,
    {
        let next: u16 = self.pc + 2;
        match instr {
            Instruction::Move { x, y } => {
                self.v[x] = self.v[y];
                self.pc = next;
            },
            Instruction::Or { x, y } => {
                self.v[x] = self.v[x] | self.v[y];
                self.v[0xF] = 0;
                self.pc = next;
            },
            Instruction::And { x, y } => {
                self.v[x] = self.v[x] & self.v[y];
                self.v[0xF] = 0;
                self.pc = next;
            },
            Instruction::Xor { x, y } => {
                self.v[x] = self.v[x] ^ self.v[y];
                self.v[0xF] = 0;
                self.pc = next;
            },
            Instruction::Add { x, y } => {
                let (vx, vy) = (self.v[x], self.v[y]);
                let carry = vx > 255 - vy;
                self.v[x] = vx.wrapping_add(vy);
                self.v[0xF] = if carry {
                    1
                } else {
                    0
                };
                self.pc = next;
            },
            Instruction::Sub { x, y } => {
                let (vx, vy) = (self.v[x], self.v[y]);
                let borrow = vx < vy;
                self.v[x] = vx.wrapping_sub(vy);
                self.v[0xF] = if borrow {
                    0
                } else {
                    1
                };
                self.pc = next;
            },
            Instruction::ShiftRight { x, y } => {
                let source = if self.quirks.shift_uses_vy {
                    self.v[y]
                } else {
                    self.v[x]
                };
                self.v[x] = source >> 1;
                self.v[0xF] = source & 1;
                self.pc = next;
            },
            Instruction::SubFrom { x, y } => {
                let (vx, vy) = (self.v[x], self.v[y]);
                let borrow = vy < vx;
                self.v[x] = vy.wrapping_sub(vx);
                self.v[0xF] = if borrow {
                    0
                } else {
                    1
                };
                self.pc = next;
            },
            Instruction::ShiftLeft { x, y } => {
                let source = if self.quirks.shift_uses_vy {
                    self.v[y]
                } else {
                    self.v[x]
                };
                self.v[x] = source << 1;
                self.v[0xF] = (source >> 7) & 1;
                self.pc = next;
            },
            _ => {},
        }
    }

    /// `Dxyn`, when it is not throttled.
    fn execute_draw(&mut self, x: usize, y: usize, rows: usize) -> (ok: bool)
        requires
            x < 16,
            y < 16,
            rows < 16,
            old(self).pc + 1 < 4096,
        ensures
            ok == old(self)@.draw(x as int, y as int, rows as int).is_some(),
            ok ==> final(self)@ == old(self)@.draw(x as int, y as int, rows as int).unwrap(),
            !ok ==> *final(self) == *old(self),
            final(self).display == old(self).display,
    {
        let x0 = (self.v[x] % 64) as usize;
        let y0 = (self.v[y] % 32) as usize;
        let height = if y0 + rows > SCREEN_HEIGHT {
            SCREEN_HEIGHT - y0
        } else {
            rows
        };
        let addr = self.i as usize;
        if addr + height > MEMORY_SIZE {
            return false;
        }
        let collision = draw_sprite(&mut self.gfx, &self.memory, addr, height, x0, y0);
        self.v[0xF] = if collision {
            1
        } else {
            0
        };
        self.pc = self.pc + 2;
        true
    }

    /// The instructions that read or write memory through `i`.
    fn execute_transfer(&mut self, instr: Instruction) -> (ok: bool)
        requires
            instr.wf(),
            old(self).pc + 1 < 4096,
        ensures
            ok == old(self)@.transfer(instr).is_some(),
            ok ==> final(self)@ == old(self)@.transfer(instr).unwrap(),
            !ok ==> *final(self) == *old(self),
            final(self).display == old(self).display,
    {
        let next: u16 = self.pc + 2;
        let addr = self.i as usize;
        match instr {
            Instruction::SetIndex { addr } => {
                self.i = addr;
                self.pc = next;
                true
            },
            Instruction::AddIndex { x } => {
                let offset = self.v[x] as u16;
                if self.i > 0xFFFF - offset {
                    return false;
                }
                self.i = self.i + offset;
                self.pc = next;
                true
            },
            Instruction::Glyph { x } => {
                self.i = self.v[x] as u16 * 5 + FONTSET_START as u16;
                self.pc = next;
                true
            },
            Instruction::StoreBcd { x } => {
                if addr + 2 >= MEMORY_SIZE {
                    return false;
                }
                let value = self.v[x];
                self.memory[addr] = value / 100;
                self.memory[addr + 1] = (value / 10) % 10;
                self.memory[addr + 2] = value % 10;
                self.pc = next;
                true
            },
            Instruction::StoreRegisters { x } => {
                if addr + x >= MEMORY_SIZE {
                    return false;
                }
                store_registers(&mut self.memory, &self.v, addr, x);
                if self.quirks.index_advances {
                    self.i = self.i + (x + 1) as u16;
                }
                self.pc = next;
                true
            },
            Instruction::LoadRegisters { x } => {
                if addr + x >= MEMORY_SIZE {
                    return false;
                }
                load_registers(&mut self.v, &self.memory, addr, x);
                if self.quirks.index_advances {
                    self.i = self.i + (x + 1) as u16;
                }
                self.pc = next;
                true
            },
            _ => false,
        }
    }

    /// Runs one cycle with a given random byte and a given decision on
    /// whether `Dxyn` has to wait: fetches the word at the program counter,
    /// decodes it and executes it.
    ///
    /// Returns `false` where the machine halts, and then leaves it as it was:
    /// on a word that is no instruction, a program counter at which no word
    /// fits, or one of the faults listed at [`CPU::execute`].
    pub fn step(&mut self, random: u8, throttled: bool) -> (ok: bool)
        ensures
            ok == old(self)@.step(random, throttled).is_some(),
            final(self)@ == old(self)@.after_step(random, throttled),
            !ok ==> *final(self) == *old(self),
            final(self).display == old(self).display,
            old(self)@.inv() ==> final(self)@.inv(),
    {
        proof {
            if self@.inv() {
                lemma_step_keeps_inv(self@, random, throttled);
            }
        }
        match self.fetch() {
            None => false,
            Some(word) => match decode(word) {
                None => false,
                Some(instr) => self.complete(word, instr, random, throttled),
            },
        }
    }

    /// Executes the instruction `instr` that the word `word` at the program
    /// counter stands for, and remembers the word.
    fn complete(&mut self, word: u16, instr: Instruction, random: u8, throttled: bool) -> (ok:
        bool)
        requires
            old(self)@.fetch() == Some(word),
            spec_decode(word) == Some(instr),
        ensures
            ok == old(self)@.step(random, throttled).is_some(),
            final(self)@ == old(self)@.after_step(random, throttled),
            !ok ==> *final(self) == *old(self),
            final(self).display == old(self).display,
    {
        if self.execute(instr, random, throttled) {
            self.opcode = word;
            true
        } else {
            false
        }
    }

    /// Runs one cycle. `time_since_frame` is the time since the current frame
    /// began and `frame_time` the length of a frame, in the same unit: with
    /// the frame-wait quirk on, `Dxyn` stalls unless it comes within the
    /// first thirtieth of the frame.
    ///
    /// `Cxnn` draws its byte from the thread's random number generator, so
    /// its outcome is one of those that [`CPU::step`] has for some byte; no
    /// other instruction draws one.
    ///
    /// Returns `false` where the machine halts, and then leaves it as it was.
    pub fn cycle(&mut self, time_since_frame: u128, frame_time: u128) -> (ok: bool)
        ensures
            exists|random: u8|
                {
                    &&& ok == old(self)@.step(
                        random,
                        old(self)@.throttled(time_since_frame, frame_time),
                    ).is_some()
                    &&& final(self)@ == #[trigger] old(self)@.after_step(
                        random,
                        old(self)@.throttled(time_since_frame, frame_time),
                    )
                },
            !old(self)@.draws_random() ==> {
                &&& ok == old(self)@.step(
                    0,
                    old(self)@.throttled(time_since_frame, frame_time),
                ).is_some()
                &&& final(self)@ == old(self)@.after_step(
                    0,
                    old(self)@.throttled(time_since_frame, frame_time),
                )
            },
            !ok ==> *final(self) == *old(self),
            final(self).display == old(self).display,
            old(self)@.inv() ==> final(self)@.inv(),
    {
        let throttled = self.quirks.draw_waits_for_frame && draw_throttled(
            time_since_frame,
            frame_time,
        );
        let word = match self.fetch() {
            None => {
                assert(self@ == self@.after_step(0, throttled));
                return false;
            },
            Some(word) => word,
        };
        let instr = match decode(word) {
            None => {
                assert(self@ == self@.after_step(0, throttled));
                return false;
            },
            Some(instr) => instr,
        };
        let random = match instr {
            Instruction::Random { .. } => random_byte(),
            _ => 0,
        };
        proof {
            if self@.inv() {
                lemma_step_keeps_inv(self@, random, throttled);
            }
        }
        let ok = self.complete(word, instr, random, throttled);
        assert(self@ == old(self)@.after_step(random, throttled));
        ok
    }

    /// Records which keys the host reports as down.
    pub fn set_keys(&mut self, down: &[bool; 16])
        ensures
            final(self)@ == (Machine { keys: key_states(down@), ..old(self)@ }),
            final(self).display == old(self).display,
    {
        let mut k: usize = 0;
        while k < 16
            invariant
                k <= 16,
                self.display == old(self).display,
                self@ == (Machine { keys: self.keys@, ..old(self)@ }),
                forall|j: int| 0 <= j < k ==> #[trigger] self.keys@[j] == key_states(down@)[j],
            decreases 16 - k,
        {
            self.keys[k] = if down[k] {
                1
            } else {
                0
            };
            k += 1;
        }
        assert(self.keys@ =~= key_states(down@));
    }

    /// Asks the host for the state of each key and records it.
    ///
    /// The host's `is_key_down` is asked for each of the codes 0 to 15, on the
    /// display as it is. Key `k` is then 1 where the host answered that it is
    /// down and 0 where it answered that it is up. Nothing else changes.
    pub fn poll_keys(&mut self)
        ensures
            forall|k: int|
                0 <= k < 16 ==> call_ensures(
                    D::is_key_down,
                    (&old(self).display, k as usize),
                    (#[trigger] final(self)@.keys[k]) == 1,
                ),
            is_binary(final(self)@.keys),
            final(self)@ == (Machine { keys: final(self)@.keys, ..old(self)@ }),
            final(self).display == old(self).display,
    {
        let mut down = [false;16];
        let mut k: usize = 0;
        while k < 16
            invariant
                k <= 16,
                *self == *old(self),
                forall|j: int|
                    0 <= j < k ==> call_ensures(
                        D::is_key_down,
                        (&self.display, j as usize),
                        #[trigger] down@[j],
                    ),
            decreases 16 - k,
        {
            down[k] = self.display.is_key_down(k);
            k += 1;
        }
        self.set_keys(&down);
    }

    /// Whether the host's window is still open: the answer is the host's own,
    /// one that its `is_open` can give for this display.
    pub fn is_open(&self) -> (open: bool)
        ensures
            call_ensures(D::is_open, (&self.display,), open),
    {
        self.display.is_open()
    }

    /// Hands the screen to the host: the host's `update` is called once on
    /// the display, with the screen as a grid of 64 by 32 cells, and the
    /// display is left as that call leaves it. The machine itself does not
    /// change.
    pub fn present(&mut self)
        ensures
            final(self)@ == old(self)@,
            exists|host: &mut D|
                {
                    &&& mut_ref_current(host) == old(self).display
                    &&& mut_ref_future(host) == final(self).display
                    &&& #[trigger] call_ensures(
                        D::update,
                        (host, spec_array_as_slice(&old(self).gfx), 64usize, 32usize),
                        (),
                    )
                },
    {
        self.display.update(&self.gfx, SCREEN_WIDTH, SCREEN_HEIGHT);
    }

    /// One tick of the 60 Hz clock: each timer that is not zero goes down by
    /// one.
    pub fn tick_timers(&mut self)
        ensures
            final(self)@ == old(self)@.tick(),
            final(self).display == old(self).display,
    {
        if self.delay_timer > 0 {
            self.delay_timer -= 1;
        }
        if self.sound_timer > 0 {
            self.sound_timer -= 1;
        }
    }

    /// Ends the frame that began `time_since_frame` ago, if it has lasted
    /// `frame_time` by now: the screen is handed to the host, by one call of
    /// its `update` with the screen as a grid of 64 by 32 cells, and then
    /// both timers tick. Returns whether it did; the host then starts the
    /// next frame.
    pub fn end_frame(&mut self, time_since_frame: u128, frame_time: u128) -> (ended: bool)
        ensures
            ended == (time_since_frame >= frame_time),
            ended ==> final(self)@ == old(self)@.tick(),
            ended ==> exists|host: &mut D|
                {
                    &&& mut_ref_current(host) == old(self).display
                    &&& mut_ref_future(host) == final(self).display
                    &&& #[trigger] call_ensures(
                        D::update,
                        (host, spec_array_as_slice(&old(self).gfx), 64usize, 32usize),
                        (),
                    )
                },
            !ended ==> *final(self) == *old(self),
    {
        if frame_due(time_since_frame, frame_time) {
            self.present();
            self.tick_timers();
            true
        } else {
            false
        }
    }
}

/// The lowest key that is down, if any.
fn lowest_pressed_key(keys: &[u8; 16]) -> (found: Option<usize>)
    ensures
        match found {
            Some(key) => is_lowest_pressed(keys@, key as int),
            None => !any_pressed(keys@),
        },
{
    let mut k: usize = 0;
    while k < 16
        invariant
            k <= 16,
            forall|j: int| 0 <= j < k ==> #[trigger] keys@[j] != 1,
        decreases 16 - k,
    {
        if keys[k] == 1 {
            return Some(k);
        }
        k += 1;
    }
    None
}

/// `Fx55`: copies registers `0..=x` to `memory[addr..]`.
fn store_registers(memory: &mut [u8; 4096], v: &[u8; 16], addr: usize, x: usize)
    requires
        x < 16,
        addr + x < 4096,
    ensures
        final(memory)@ == stored(old(memory)@, v@, addr as int, x as int),
{
    let mut r: usize = 0;
    while r <= x
        invariant
            r <= x + 1,
            x < 16,
            addr + x < 4096,
            forall|a: int|
                0 <= a < 4096 ==> #[trigger] memory@[a] == if addr <= a < addr + r {
                    v@[a - addr]
                } else {
                    old(memory)@[a]
                },
        decreases x + 1 - r,
    {
        memory[addr + r] = v[r];
        r += 1;
    }
    assert(memory@ =~= stored(old(memory)@, v@, addr as int, x as int));
}

/// `Fx65`: copies `memory[addr..]` to registers `0..=x`.
fn load_registers(v: &mut [u8; 16], memory: &[u8; 4096], addr: usize, x: usize)
    requires
        x < 16,
        addr + x < 4096,
    ensures
        final(v)@ == loaded(old(v)@, memory@, addr as int, x as int),
{
    let mut r: usize = 0;
    while r <= x
        invariant
            r <= x + 1,
            x < 16,
            addr + x < 4096,
            forall|k: int|
                0 <= k < 16 ==> #[trigger] v@[k] == if k < r {
                    memory@[addr + k]
                } else {
                    old(v)@[k]
                },
        decreases x + 1 - r,
    {
        v[r] = memory[addr + r];
        r += 1;
    }
    assert(v@ =~= loaded(old(v)@, memory@, addr as int, x as int));
}

} // verus!
