//! A CHIP-8 style virtual CPU: decoder, fetch/execute state machine and
//! a monochrome frame buffer with XOR sprite drawing.

pub mod constants;
pub mod display;
pub mod frame;
pub mod instructions;

use vstd::prelude::*;

verus! {

use crate::constants::{
    font, font_spec, AVAILABLE_PROGRAM_MEMORY, FLAG_REGISTER, FONT_LEN, FONT_START, MAX_MEMORY,
    PROGRAM_MEMORY_START, REGISTER_COUNT, STACK_CAPACITY,
};
use crate::frame::{blank_screen, collides, drawn, AhoyFrame, DISPLAY_HEIGHT, DISPLAY_WIDTH};
use crate::instructions::{decode, decode_spec, operands_in_range, AhoyInstruction};

/// What can go wrong while loading or running a program.
#[derive(Debug, Clone, Copy, PartialEq, Eq, Structural)]
pub enum AhoyError {
    /// The program to load has no bytes.
    EmptyProgram,
    /// The program to load does not fit the program region.
    ProgramTooLarge,
    /// A subroutine call found the call stack full.
    StackOverflow,
    /// A return found the call stack empty.
    StackUnderflow,
    /// A sprite would be read past the end of memory.
    MemoryOutOfBounds,
    /// The word is not an implemented instruction; execution stops there.
    UnsupportedOpcode(u16),
}

/// The state of the machine as the contracts see it.
pub struct AhoyView {
    pub memory: Seq<u8>,
    pub registers: Seq<u8>,
    pub index: u16,
    pub counter: nat,
    pub stack: Seq<u16>,
    pub screen: Seq<Seq<bool>>,
    pub delay_timer: u8,
    pub sound_timer: u8,
}

impl AhoyView {
    /// Memory and registers have their fixed sizes, the program counter and
    /// every saved return address point into memory, and the call stack is
    /// within its capacity.
    pub open spec fn well_formed(self) -> bool {
        &&& self.memory.len() == MAX_MEMORY
        &&& self.registers.len() == REGISTER_COUNT
        &&& self.counter < MAX_MEMORY
        &&& self.stack.len() <= STACK_CAPACITY
        &&& forall|k: int| 0 <= k < self.stack.len() ==> #[trigger] self.stack[k] < MAX_MEMORY
        &&& self.screen.len() == DISPLAY_HEIGHT
        &&& forall|y: int| 0 <= y < DISPLAY_HEIGHT ==> #[trigger] self.screen[y].len() == DISPLAY_WIDTH
    }
}

/// Memory right after construction: zero but for the font table.
pub open spec fn initial_memory() -> Seq<u8> {
    Seq::new(
        MAX_MEMORY as nat,
        |a: int|
            if FONT_START <= a < FONT_START + FONT_LEN {
                font_spec()[a - FONT_START]
            } else {
                0u8
            },
    )
}

/// The machine right after construction.
pub open spec fn initial_state() -> AhoyView {
    AhoyView {
        memory: initial_memory(),
        registers: Seq::new(REGISTER_COUNT as nat, |r: int| 0u8),
        index: 0,
        counter: 0,
        stack: Seq::empty(),
        screen: blank_screen(),
        delay_timer: 0,
        sound_timer: 0,
    }
}

/// Memory with `program` copied to the start of the program region and
/// every other byte as it was.
pub open spec fn loaded_memory(memory: Seq<u8>, program: Seq<u8>) -> Seq<u8> {
    Seq::new(
        memory.len(),
        |a: int|
            if PROGRAM_MEMORY_START <= a < PROGRAM_MEMORY_START + program.len() {
                program[a - PROGRAM_MEMORY_START]
            } else {
                memory[a]
            },
    )
}

/// The word at the program counter: the byte there is the high byte, the
/// next one (wrapping at the end of memory) the low byte.
pub open spec fn fetch_word(s: AhoyView) -> u16 {
    (s.memory[s.counter as int] as int * 0x100 + s.memory[((s.counter + 1) % MAX_MEMORY as nat) as int]) as u16
}

/// The state after a fetch: the program counter advanced by two, wrapping
/// at the end of memory.
pub open spec fn after_fetch(s: AhoyView) -> AhoyView {
    AhoyView { counter: (s.counter + 2) % (MAX_MEMORY as nat), ..s }
}

/// The value the flag register takes after a draw.
pub open spec fn flag_value(collision: bool) -> u8 {
    if collision {
        1u8
    } else {
        0u8
    }
}

/// The effect of one instruction on the machine: the next state, or the
/// error it stops with. An error leaves the machine as it was.
pub open spec fn execute_spec(s: AhoyView, instruction: AhoyInstruction) -> Result<AhoyView, AhoyError> {
    match instruction {
        AhoyInstruction::ClearScreen => Ok(AhoyView { screen: blank_screen(), ..s }),
        AhoyInstruction::Jump(addr) => Ok(AhoyView { counter: addr as nat, ..s }),
        AhoyInstruction::CallSubroutine(addr) => if s.stack.len() >= STACK_CAPACITY {
            Err(AhoyError::StackOverflow)
        } else {
            Ok(AhoyView { stack: s.stack.push(s.counter as u16), counter: addr as nat, ..s })
        },
        AhoyInstruction::StopSubroutine => if s.stack.len() == 0 {
            Err(AhoyError::StackUnderflow)
        } else {
            Ok(AhoyView { stack: s.stack.drop_last(), counter: s.stack.last() as nat, ..s })
        },
        AhoyInstruction::SetRegister(register, value) => Ok(
            AhoyView { registers: s.registers.update(register as int, value), ..s },
        ),
        AhoyInstruction::AddToRegister(register, value) => Ok(
            AhoyView {
                registers: s.registers.update(
                    register as int,
                    ((s.registers[register as int] + value) % 0x100) as u8,
                ),
                ..s
            },
        ),
        AhoyInstruction::SetIndex(addr) => Ok(AhoyView { index: (addr % 0x1000) as u16, ..s }),
        AhoyInstruction::Display { x_register, y_register, sprite_height } => if s.index
            + sprite_height > MAX_MEMORY {
            Err(AhoyError::MemoryOutOfBounds)
        } else {
            let x0 = s.registers[x_register as int] % (DISPLAY_WIDTH as u8);
            let y0 = s.registers[y_register as int] % (DISPLAY_HEIGHT as u8);
            let sprite = s.memory.subrange(s.index as int, s.index + sprite_height);
            Ok(
                AhoyView {
                    screen: drawn(s.screen, sprite, x0 as int, y0 as int),
                    registers: s.registers.update(
                        FLAG_REGISTER as int,
                        flag_value(collides(s.screen, sprite, x0 as int, y0 as int)),
                    ),
                    ..s
                },
            )
        },
        AhoyInstruction::UnknownInstruction(word) => Err(AhoyError::UnsupportedOpcode(word)),
    }
}

/// The virtual machine: memory, registers, call stack, timers and screen.
pub struct Ahoy {
    memory: [u8; MAX_MEMORY],
    registers: [u8; REGISTER_COUNT],
    index: u16,
    counter: usize,
    stack: Vec<u16>,
    delay_timer: u8,
    sound_timer: u8,
    current_frame: AhoyFrame,
}

impl View for Ahoy {
    type V = AhoyView;

    closed spec fn view(&self) -> AhoyView {
        AhoyView {
            memory: self.memory@,
            registers: self.registers@,
            index: self.index,
            counter: self.counter as nat,
            stack: self.stack@,
            screen: self.current_frame@,
            delay_timer: self.delay_timer,
            sound_timer: self.sound_timer,
        }
    }
}

impl Ahoy {
    /// The machine's invariant.
    pub open spec fn inv(&self) -> bool {
        self@.well_formed()
    }
}

impl Default for Ahoy {
    /// A machine with zeroed memory but for the font table, zeroed registers
    /// and timers, the program counter at zero and a blank screen.
    fn default() -> (r: Self)
        ensures
            r@ == initial_state(),
            r.inv(),
    {
        let mut memory = [0u8; MAX_MEMORY];
        let glyphs = font();
        let mut i: usize = 0;
        while i < FONT_LEN
            invariant
                i <= FONT_LEN,
                glyphs@ == font_spec(),
                forall|a: int|
                    0 <= a < MAX_MEMORY ==> #[trigger] memory@[a] == if FONT_START <= a < FONT_START + i {
                        font_spec()[a - FONT_START]
                    } else {
                        0u8
                    },
            decreases FONT_LEN - i,
        {
            memory[FONT_START + i] = glyphs[i];
            i = i + 1;
        }
        let r = Ahoy {
            memory,
            registers: [0u8; REGISTER_COUNT],
            index: 0,
            counter: 0,
            stack: Vec::new(),
            delay_timer: 0,
            sound_timer: 0,
            current_frame: AhoyFrame::new(),
        };
        assert(r@.memory =~= initial_memory());
        assert(r@.registers =~= initial_state().registers);
        assert(r@.stack =~= Seq::<u16>::empty());
        r
    }
}

impl Ahoy {
    /// Reads the instruction word at the program counter and advances the
    /// program counter by two, wrapping at the end of memory.
    pub fn fetch(&mut self) -> (word: u16)
        requires
            old(self).inv(),
        ensures
            final(self).inv(),
            word == fetch_word(old(self)@),
            final(self)@ == after_fetch(old(self)@),
    {
        let high = self.memory[self.counter] as u16;
        let low = self.memory[(self.counter + 1) % MAX_MEMORY] as u16;
        let word = (high << 8) | low;
        assert(word == high * 0x100 + low) by (bit_vector)
            requires
                high < 0x100,
                low < 0x100,
                word == (high << 8) | low,
        ;
        self.counter = (self.counter + 2) % MAX_MEMORY;
        word
    }

    /// Applies one instruction. On an error the machine is left as it was.
    pub fn execute(&mut self, instruction: AhoyInstruction) -> (r: Result<(), AhoyError>)
        requires
            old(self).inv(),
            operands_in_range(instruction),
        ensures
            final(self).inv(),
            match execute_spec(old(self)@, instruction) {
                Ok(next) => r is Ok && final(self)@ == next,
                Err(e) => r == Err::<(), AhoyError>(e) && final(self)@ == old(self)@,
            },
    {
        match instruction {
            AhoyInstruction::ClearScreen => {
                self.current_frame.clear();
            },
            AhoyInstruction::Jump(addr) => {
                self.counter = addr;
            },
            AhoyInstruction::CallSubroutine(addr) => {
                if self.stack.len() >= STACK_CAPACITY {
                    return Err(AhoyError::StackOverflow);
                }
                self.stack.push(self.counter as u16);
                self.counter = addr as usize;
            },
            AhoyInstruction::StopSubroutine => {
                match self.stack.pop() {
                    Some(addr) => {
                        self.counter = addr as usize;
                    },
                    None => {
                        return Err(AhoyError::StackUnderflow);
                    },
                }
            },
            AhoyInstruction::SetRegister(register, value) => {
                self.registers[register] = value;
            },
            AhoyInstruction::AddToRegister(register, value) => {
                let previous = self.registers[register];
                self.registers[register] = previous.wrapping_add(value);
            },
            AhoyInstruction::SetIndex(addr) => {
                self.index = addr & 0x0FFF;
                assert(addr & 0x0FFF == addr % 0x1000) by (bit_vector);
            },
            AhoyInstruction::Display { x_register, y_register, sprite_height } => {
                let start = self.index as usize;
                let end = start + sprite_height as usize;
                if end > MAX_MEMORY {
                    return Err(AhoyError::MemoryOutOfBounds);
                }
                let x0 = (self.registers[x_register] as usize) % DISPLAY_WIDTH;
                let y0 = (self.registers[y_register] as usize) % DISPLAY_HEIGHT;
                let sprite = vstd::slice::slice_subrange(self.memory.as_slice(), start, end);
                let collision = self.current_frame.draw_sprite(x0, y0, sprite);
                self.registers[FLAG_REGISTER] = if collision {
                    1
                } else {
                    0
                };
            },
            AhoyInstruction::UnknownInstruction(word) => {
                return Err(AhoyError::UnsupportedOpcode(word));
            },
        }
        Ok(())
    }
}

impl Ahoy {
    /// Copies a program to the start of the program region. Nothing else in
    /// the machine changes: registers, program counter, stack, screen and
    /// the memory outside the copied bytes keep their values. A rejected
    /// program changes nothing at all.
    pub fn load(&mut self, program: &[u8]) -> (r: Result<(), AhoyError>)
        requires
            old(self).inv(),
        ensures
            final(self).inv(),
            program@.len() == 0 ==> r == Err::<(), AhoyError>(AhoyError::EmptyProgram)
                && final(self)@ == old(self)@,
            program@.len() > AVAILABLE_PROGRAM_MEMORY ==> r == Err::<(), AhoyError>(
                AhoyError::ProgramTooLarge,
            ) && final(self)@ == old(self)@,
            0 < program@.len() <= AVAILABLE_PROGRAM_MEMORY ==> r is Ok && final(self)@ == (AhoyView {
                memory: loaded_memory(old(self)@.memory, program@),
                ..old(self)@
            }),
    {
        let length = program.len();
        if length == 0 {
            return Err(AhoyError::EmptyProgram);
        }
        if length > AVAILABLE_PROGRAM_MEMORY {
            return Err(AhoyError::ProgramTooLarge);
        }
        let mut i: usize = 0;
        while i < length
            invariant
                length == program@.len(),
                length <= AVAILABLE_PROGRAM_MEMORY,
                i <= length,
                self.registers == old(self).registers,
                self.index == old(self).index,
                self.counter == old(self).counter,
                self.stack == old(self).stack,
                self.delay_timer == old(self).delay_timer,
                self.sound_timer == old(self).sound_timer,
                self.current_frame == old(self).current_frame,
                forall|a: int|
                    0 <= a < MAX_MEMORY ==> #[trigger] self.memory@[a] == if PROGRAM_MEMORY_START
                        <= a < PROGRAM_MEMORY_START + i {
                        program@[a - PROGRAM_MEMORY_START]
                    } else {
                        old(self).memory@[a]
                    },
            decreases length - i,
        {
            self.memory[PROGRAM_MEMORY_START + i] = program[i];
            i = i + 1;
        }
        assert(self.memory@ =~= loaded_memory(old(self)@.memory, program@));
        Ok(())
    }

    /// One machine cycle: fetch the word at the program counter, decode it
    /// and execute it. On an error the program counter has advanced past
    /// the word and nothing else has changed.
    pub fn process(&mut self) -> (r: Result<(), AhoyError>)
        requires
            old(self).inv(),
        ensures
            final(self).inv(),
            match execute_spec(after_fetch(old(self)@), decode_spec(fetch_word(old(self)@))) {
                Ok(next) => r is Ok && final(self)@ == next,
                Err(e) => r == Err::<(), AhoyError>(e) && final(self)@ == after_fetch(old(self)@),
            },
    {
        let word = self.fetch();
        let instruction = decode(word);
        proof {
            crate::instructions::lemma_decoded_operands_in_range(word);
        }
        self.execute(instruction)
    }
}

impl Ahoy {
    /// The screen.
    pub fn frame(&self) -> (r: &AhoyFrame)
        ensures
            r@ == self@.screen,
    {
        &self.current_frame
    }

    /// Replaces the whole screen, as when restoring a saved picture.
    pub fn set_frame(&mut self, frame: AhoyFrame)
        requires
            old(self).inv(),
        ensures
            final(self).inv(),
            final(self)@ == (AhoyView { screen: frame@, ..old(self)@ }),
    {
        proof {
            frame.lemma_shape();
        }
        self.current_frame = frame;
    }

    /// The byte at `addr`.
    pub fn memory_at(&self, addr: usize) -> (r: u8)
        requires
            addr < MAX_MEMORY,
        ensures
            r == self@.memory[addr as int],
    {
        self.memory[addr]
    }

    /// Writes `bytes` to memory from `addr` on, leaving every other byte as
    /// it was.
    pub fn write_memory(&mut self, addr: usize, bytes: &[u8])
        requires
            old(self).inv(),
            addr + bytes@.len() <= MAX_MEMORY,
        ensures
            final(self).inv(),
            final(self)@ == (AhoyView {
                memory: Seq::new(
                    MAX_MEMORY as nat,
                    |a: int|
                        if addr <= a < addr + bytes@.len() {
                            bytes@[a - addr]
                        } else {
                            old(self)@.memory[a]
                        },
                ),
                ..old(self)@
            }),
    {
        let length = bytes.len();
        let mut i: usize = 0;
        while i < length
            invariant
                length == bytes@.len(),
                addr + length <= MAX_MEMORY,
                i <= length,
                self.registers == old(self).registers,
                self.index == old(self).index,
                self.counter == old(self).counter,
                self.stack == old(self).stack,
                self.delay_timer == old(self).delay_timer,
                self.sound_timer == old(self).sound_timer,
                self.current_frame == old(self).current_frame,
                forall|a: int|
                    0 <= a < MAX_MEMORY ==> #[trigger] self.memory@[a] == if addr <= a < addr + i {
                        bytes@[a - addr]
                    } else {
                        old(self).memory@[a]
                    },
            decreases length - i,
        {
            self.memory[addr + i] = bytes[i];
            i = i + 1;
        }
        assert(self@.memory =~= Seq::new(
            MAX_MEMORY as nat,
            |a: int|
                if addr <= a < addr + bytes@.len() {
                    bytes@[a - addr]
                } else {
                    old(self)@.memory[a]
                },
        ));
    }

    /// The value of register `register`.
    pub fn register(&self, register: usize) -> (r: u8)
        requires
            register < REGISTER_COUNT,
        ensures
            r == self@.registers[register as int],
    {
        self.registers[register]
    }

    /// The index register.
    pub fn index(&self) -> (r: u16)
        ensures
            r == self@.index,
    {
        self.index
    }

    /// The program counter.
    pub fn counter(&self) -> (r: usize)
        ensures
            r == self@.counter,
    {
        self.counter
    }

    /// The number of return addresses on the call stack.
    pub fn stack_depth(&self) -> (r: usize)
        ensures
            r == self@.stack.len(),
    {
        self.stack.len()
    }

    /// The delay timer.
    pub fn delay_timer(&self) -> (r: u8)
        ensures
            r == self@.delay_timer,
    {
        self.delay_timer
    }

    /// The sound timer.
    pub fn sound_timer(&self) -> (r: u8)
        ensures
            r == self@.sound_timer,
    {
        self.sound_timer
    }

    /// Stores a new delay timer value; the timer is driven from outside.
    pub fn set_delay_timer(&mut self, value: u8)
        requires
            old(self).inv(),
        ensures
            final(self).inv(),
            final(self)@ == (AhoyView { delay_timer: value, ..old(self)@ }),
    {
        self.delay_timer = value;
    }

    /// Stores a new sound timer value; the timer is driven from outside.
    pub fn set_sound_timer(&mut self, value: u8)
        requires
            old(self).inv(),
        ensures
            final(self).inv(),
            final(self)@ == (AhoyView { sound_timer: value, ..old(self)@ }),
    {
        self.sound_timer = value;
    }
}

} // verus!
