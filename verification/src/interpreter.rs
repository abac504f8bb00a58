//! The execution engine: the machine's state in memory and the cycle that
//! fetches, decodes and executes one instruction.

use vstd::prelude::*;
use crate::display::{blend_row, draw_rows, HEIGHT};
use crate::error::EngineError;
use crate::hex::{hex_line, push_hex_byte};
use crate::instruction::Instruction;
use crate::machine::{
    audio_change, blank_frame, cycle_spec, execute_spec, respond_spec, run_spec, tick_spec,
    word_at, Action, Machine, Pending, Response, PROGRAM_START, RAM_SIZE, REG_VF, STACK_SIZE,
};

verus! {

/// The sprites of the hexadecimal digits `0` to `F`, five rows each.
pub const DIGITS: [[u8; 5]; 16] = [
    [0xF0, 0x90, 0x90, 0x90, 0xF0],
    [0x20, 0x60, 0x20, 0x20, 0x70],
    [0xF0, 0x10, 0xF0, 0x80, 0xF0],
    [0xF0, 0x10, 0xF0, 0x10, 0xF0],
    [0x90, 0x90, 0xF0, 0x10, 0x10],
    [0xF0, 0x80, 0xF0, 0x10, 0xF0],
    [0xF0, 0x80, 0xF0, 0x90, 0xF0],
    [0xF0, 0x10, 0x20, 0x40, 0x40],
    [0xF0, 0x90, 0xF0, 0x90, 0xF0],
    [0xF0, 0x90, 0xF0, 0x10, 0xF0],
    [0xF0, 0x90, 0xF0, 0x90, 0x90],
    [0xE0, 0x90, 0xE0, 0x90, 0xE0],
    [0xF0, 0x80, 0x80, 0x80, 0xF0],
    [0xE0, 0x90, 0x90, 0x90, 0xE0],
    [0xF0, 0x80, 0xF0, 0x80, 0xF0],
    [0xF0, 0x80, 0xF0, 0x80, 0x80],
];

/// The eighty bytes of the font, digit after digit.
pub open spec fn font_bytes() -> Seq<u8> {
    Seq::new(80, |i: int| DIGITS[i / 5][i % 5])
}

/// `memory` with `bytes` written over it from `address` on.
pub open spec fn overwrite(memory: Seq<u8>, address: int, bytes: Seq<u8>) -> Seq<u8> {
    Seq::new(
        memory.len(),
        |a: int|
            if address <= a < address + bytes.len() {
                bytes[a - address]
            } else {
                memory[a]
            },
    )
}

/// The state in which a program starts: the font at address 0, the
/// program at `0x200`, every other byte, register, timer and pixel zero,
/// no call under way, and the program counter at `0x200`.
pub open spec fn initial_machine(rom: Seq<u8>) -> Machine {
    Machine {
        memory: overwrite(
            overwrite(Seq::new(RAM_SIZE as nat, |a: int| 0u8), 0, font_bytes()),
            PROGRAM_START as int,
            rom,
        ),
        registers: Seq::new(16, |r: int| 0u8),
        address: 0,
        delay_timer: 0,
        sound_timer: 0,
        program_counter: PROGRAM_START as u16,
        stack: Seq::empty(),
        frame: blank_frame(),
        pending: Pending::Ready,
    }
}

/// Wrapping 8-bit sums, differences and the product with five are the
/// exact results taken modulo 256.
proof fn lemma_wrapping_u8(a: u8, b: u8)
    ensures
        a.wrapping_add(b) == ((a + b) % 256) as u8,
        a.wrapping_sub(b) == ((a - b) % 256) as u8,
        a.wrapping_mul(5) == ((5 * a) % 256) as u8,
{
}

/// A wrapping 16-bit sum with a byte is the exact sum modulo 65536.
proof fn lemma_wrapping_u16(a: u16, b: u8)
    ensures
        a.wrapping_add(b as u16) == ((a + b) % 0x10000) as u16,
{
}

/// A byte from the thread-local generator behind `rand::random`. The
/// value is up to chance, so nothing is promised of it. The call fails
/// only where the operating system has no entropy to seed the generator.
#[verifier::external_body]
fn random_byte() -> (byte: u8) {
    rand::random::<u8>()
}

/// What the first half of a cycle found.
enum Fetched {
    /// The cycle is over with this outcome and the state is unchanged.
    Settled(Result<Action, EngineError>),
    /// This instruction is to be executed.
    Run(Instruction),
}

/// A machine: memory, registers, timers, call stack and display.
pub struct Interpreter {
    /// The 4096 bytes of memory.
    memory: Vec<u8>,
    /// The address of the next instruction.
    program_counter: u16,
    /// The registers `V0` to `VF`.
    registers: [u8; 16],
    /// The address register `I`.
    address_register: u16,
    /// The sound timer.
    sound_register: u8,
    /// The delay timer.
    timer_register: u8,
    /// The number of return addresses stored in `stack`.
    stack_pointer: u8,
    /// The return addresses; the first `stack_pointer` slots are in use.
    stack: [u16; 16],
    /// The rows of the display; bit `63 - x` of a row is column `x`.
    frame_buffer: [u64; 32],
    /// The answer that the engine waits for.
    pending: Pending,
}

impl View for Interpreter {
    type V = Machine;

    closed spec fn view(&self) -> Machine {
        Machine {
            memory: self.memory@,
            registers: self.registers@,
            address: self.address_register,
            delay_timer: self.timer_register,
            sound_timer: self.sound_register,
            program_counter: self.program_counter,
            stack: self.stack@.subrange(0, self.stack_pointer as int),
            frame: self.frame_buffer@,
            pending: self.pending,
        }
    }
}

impl Interpreter {
    /// Memory has its full size, the stack pointer stays within the
    /// stack, and a suspended instruction can be completed.
    #[verifier::type_invariant]
    spec fn consistent(self) -> bool {
        &&& self.memory@.len() == RAM_SIZE
        &&& self.stack_pointer <= STACK_SIZE
        &&& match self.pending {
            Pending::Ready => true,
            Pending::KeyQuery { key, .. } => key < 16 && self.program_counter <= RAM_SIZE,
            Pending::KeyWait { register } => register < 16,
        }
    }

    /// Creates a machine with the font and the given program loaded. The
    /// program has to fit between `0x200` and the end of memory.
    pub fn new(rom_file: Vec<u8>) -> (interpreter: Self)
        requires
            rom_file@.len() <= RAM_SIZE - PROGRAM_START,
        ensures
            interpreter@ == initial_machine(rom_file@),
            interpreter@.well_formed(),
    {
        let mut interpreter = Self {
            memory: vec![0u8; RAM_SIZE],
            registers: [0; 16],
            address_register: 0,
            sound_register: 0,
            timer_register: 0,
            stack_pointer: 0,
            program_counter: PROGRAM_START as u16,
            stack: [0; 16],
            frame_buffer: [0; 32],
            pending: Pending::Ready,
        };
        let ghost zeroed = interpreter@;
        assert(zeroed.memory =~= Seq::new(RAM_SIZE as nat, |a: int| 0u8));
        let mut idx: usize = 0;
        while idx < 16
            invariant
                idx <= 16,
                interpreter@ == (Machine {
                    memory: overwrite(zeroed.memory, 0, font_bytes().subrange(0, 5 * idx)),
                    ..zeroed
                }),
            decreases 16 - idx,
        {
            let digit = &DIGITS[idx];
            interpreter.write_bytes(idx * 5, digit.as_slice());
            proof {
                assert(digit@ =~= font_bytes().subrange(5 * idx, 5 * idx + 5));
                assert(interpreter@.memory =~= overwrite(
                    zeroed.memory,
                    0,
                    font_bytes().subrange(0, 5 * (idx + 1)),
                ));
            }
            idx += 1;
        }
        proof {
            assert(font_bytes().subrange(0, 80) =~= font_bytes());
        }
        interpreter.write_bytes(PROGRAM_START, rom_file.as_slice());
        proof {
            assert(interpreter@.registers =~= Seq::new(16, |r: int| 0u8));
            assert(interpreter@.frame =~= blank_frame());
            assert(interpreter@.stack =~= Seq::empty());
            assert(interpreter@ =~= initial_machine(rom_file@));
        }
        interpreter
    }

    /// Writes the given bytes to the memory, starting at the given address.
    fn write_bytes(&mut self, address: usize, bytes: &[u8])
        requires
            address + bytes@.len() <= RAM_SIZE,
        ensures
            final(self)@ == (Machine {
                memory: overwrite(old(self)@.memory, address as int, bytes@),
                ..old(self)@
            }),
    {
        proof {
            use_type_invariant(&*self);
        }
        let mut i: usize = 0;
        while i < bytes.len()
            invariant
                i <= bytes@.len(),
                address + bytes@.len() <= RAM_SIZE,
                self@ == (Machine {
                    memory: overwrite(old(self)@.memory, address as int, bytes@.subrange(0, i as int)),
                    ..old(self)@
                }),
            decreases bytes@.len() - i,
        {
            proof {
                use_type_invariant(&*self);
            }
            self.memory[address + i] = bytes[i];
            i += 1;
            proof {
                assert(self@.memory =~= overwrite(
                    old(self)@.memory,
                    address as int,
                    bytes@.subrange(0, i as int),
                ));
            }
        }
        proof {
            assert(bytes@.subrange(0, i as int) =~= bytes@);
        }
    }

    /// The big-endian word at `address`, if both of its bytes are in memory.
    fn read_u16(&self, address: usize) -> (word: Option<u16>)
        ensures
            address + 1 < RAM_SIZE ==> word == Some(word_at(self@.memory, address as int)),
            address + 1 >= RAM_SIZE ==> word.is_none(),
    {
        proof {
            use_type_invariant(self);
        }
        if address >= RAM_SIZE - 1 {
            return None;
        }
        let high: u8 = self.memory[address];
        let low: u8 = self.memory[address + 1];
        assert(((high as u16) << 8) | (low as u16) == high * 256 + low) by (bit_vector);
        Some(((high as u16) << 8) | (low as u16))
    }

    /// Sets `Vx`.
    fn set_register(&mut self, x: u8, value: u8)
        requires
            x < 16,
        ensures
            final(self)@ == old(self)@.with_register(x, value),
    {
        proof {
            use_type_invariant(&*self);
        }
        self.registers[x as usize] = value;
        assert(self@ =~= old(self)@.with_register(x, value));
    }

    /// Sets `Vx` and then the flag register `VF`.
    fn set_flagged(&mut self, x: u8, value: u8, flag: bool)
        requires
            x < 16,
        ensures
            final(self)@ == old(self)@.with_flagged(x, value, flag),
    {
        proof {
            use_type_invariant(&*self);
        }
        self.registers[x as usize] = value;
        self.registers[REG_VF] = if flag { 1 } else { 0 };
        assert(self@ =~= old(self)@.with_flagged(x, value, flag));
    }

    /// Moves the program counter over the next instruction if `skip` holds.
    fn skip_if(&mut self, skip: bool)
        requires
            old(self)@.pending is Ready,
            old(self)@.program_counter <= RAM_SIZE,
        ensures
            final(self)@ == old(self)@.with_skip(skip),
    {
        proof {
            use_type_invariant(&*self);
        }
        if skip {
            self.program_counter = self.program_counter + 2;
        }
        assert(self@ =~= old(self)@.with_skip(skip));
    }

    /// Stores the program counter as a return address and jumps to `address`.
    fn push_subroutine(&mut self, address: u16) -> (pushed: Result<(), EngineError>)
        requires
            old(self)@.pending is Ready,
        ensures
            old(self)@.stack.len() >= STACK_SIZE ==> pushed == Err::<(), EngineError>(
                EngineError::StackOverflow,
            ) && final(self)@ == old(self)@,
            old(self)@.stack.len() < STACK_SIZE ==> pushed.is_ok() && final(self)@ == (Machine {
                stack: old(self)@.stack.push(old(self)@.program_counter),
                program_counter: address,
                ..old(self)@
            }),
    {
        proof {
            use_type_invariant(&*self);
        }
        if self.stack_pointer as usize >= STACK_SIZE {
            return Err(EngineError::StackOverflow);
        }
        self.stack[self.stack_pointer as usize] = self.program_counter;
        self.stack_pointer = self.stack_pointer + 1;
        self.program_counter = address;
        assert(self@ =~= (Machine {
            stack: old(self)@.stack.push(old(self)@.program_counter),
            program_counter: address,
            ..old(self)@
        }));
        Ok(())
    }

    /// Jumps back to the return address stored last and drops it.
    fn pop_subroutine(&mut self) -> (popped: Result<(), EngineError>)
        requires
            old(self)@.pending is Ready,
        ensures
            old(self)@.stack.len() == 0 ==> popped == Err::<(), EngineError>(
                EngineError::StackUnderflow,
            ) && final(self)@ == old(self)@,
            old(self)@.stack.len() > 0 ==> popped.is_ok() && final(self)@ == (Machine {
                program_counter: old(self)@.stack.last(),
                stack: old(self)@.stack.drop_last(),
                ..old(self)@
            }),
    {
        proof {
            use_type_invariant(&*self);
        }
        if self.stack_pointer == 0 {
            return Err(EngineError::StackUnderflow);
        }
        self.stack_pointer = self.stack_pointer - 1;
        self.program_counter = self.stack[self.stack_pointer as usize];
        assert(self@ =~= (Machine {
            program_counter: old(self)@.stack.last(),
            stack: old(self)@.stack.drop_last(),
            ..old(self)@
        }));
        Ok(())
    }

    /// Draws the `n`-row sprite found at the address register at column
    /// `x`, row `y`, and sets `VF` to whether a lit pixel went dark.
    fn draw_sprite(&mut self, x: u8, y: u8, n: u8) -> (drawn: Result<(), EngineError>)
        ensures
            old(self)@.address + n > RAM_SIZE ==> drawn == Err::<(), EngineError>(
                EngineError::OutOfBoundsAccess,
            ) && final(self)@ == old(self)@,
            old(self)@.address + n <= RAM_SIZE ==> drawn.is_ok() && final(self)@ == ({
                let start = old(self)@.address as int;
                let (frame, collided) = draw_rows(
                    old(self)@.frame,
                    old(self)@.memory.subrange(start, start + n),
                    x,
                    y,
                );
                Machine {
                    frame,
                    registers: old(self)@.registers.update(
                        REG_VF as int,
                        if collided { 1u8 } else { 0u8 },
                    ),
                    ..old(self)@
                }
            }),
    {
        proof {
            use_type_invariant(&*self);
        }
        let start: usize = self.address_register as usize;
        if start + n as usize > RAM_SIZE {
            return Err(EngineError::OutOfBoundsAccess);
        }
        let mut collided: bool = false;
        let mut i: usize = 0;
        while i < n as usize
            invariant
                i <= n,
                start == old(self)@.address,
                start + n <= RAM_SIZE,
                old(self)@.memory.len() == RAM_SIZE,
                self@ == (Machine { frame: self@.frame, ..old(self)@ }),
                (self@.frame, collided) == draw_rows(
                    old(self)@.frame,
                    old(self)@.memory.subrange(start as int, start + i),
                    x,
                    y,
                ),
                self@.frame.len() == 32,
            decreases n - i,
        {
            proof {
                use_type_invariant(&*self);
            }
            let row: usize = (y as usize + i) % HEIGHT;
            let byte: u8 = self.memory[start + i];
            let (new_row, erased) = blend_row(self.frame_buffer[row], byte, x);
            proof {
                let done = old(self)@.memory.subrange(start as int, start + i);
                let next = old(self)@.memory.subrange(start as int, start + i + 1);
                assert(next.drop_last() =~= done);
                assert(next.last() == byte);
            }
            self.frame_buffer[row] = new_row;
            collided = collided || erased;
            i += 1;
        }
        proof {
            use_type_invariant(&*self);
            assert(old(self)@.memory.subrange(start as int, start + i) =~= old(self)@.memory.subrange(
                start as int,
                start + n,
            ));
        }
        self.registers[REG_VF] = if collided { 1 } else { 0 };
        Ok(())
    }

    /// Stores the three decimal digits of `value` at the address register.
    fn store_decimal(&mut self, value: u8) -> (stored: Result<(), EngineError>)
        ensures
            (final(self)@, stored) == ({
                let m = old(self)@;
                let i = m.address as int;
                if i + 2 >= RAM_SIZE {
                    (m, Err::<(), EngineError>(EngineError::OutOfBoundsAccess))
                } else {
                    (
                        Machine {
                            memory: m.memory.update(i, value / 100).update(
                                i + 1,
                                (value / 10) % 10,
                            ).update(i + 2, value % 10),
                            ..m
                        },
                        Ok::<(), EngineError>(()),
                    )
                }
            }),
    {
        proof {
            use_type_invariant(&*self);
        }
        let start: usize = self.address_register as usize;
        if start + 2 >= RAM_SIZE {
            return Err(EngineError::OutOfBoundsAccess);
        }
        self.memory[start] = value / 100;
        self.memory[start + 1] = (value / 10) % 10;
        self.memory[start + 2] = value % 10;
        Ok(())
    }

    /// Copies `V0..=Vx` into memory from the address register on.
    fn store_registers(&mut self, x: u8) -> (stored: Result<(), EngineError>)
        requires
            x < 16,
        ensures
            (final(self)@, stored) == ({
                let m = old(self)@;
                let i = m.address as int;
                if i + x >= RAM_SIZE {
                    (m, Err::<(), EngineError>(EngineError::OutOfBoundsAccess))
                } else {
                    (
                        Machine {
                            memory: Seq::new(
                                m.memory.len(),
                                |a: int|
                                    if i <= a <= i + x {
                                        m.registers[a - i]
                                    } else {
                                        m.memory[a]
                                    },
                            ),
                            ..m
                        },
                        Ok::<(), EngineError>(()),
                    )
                }
            }),
    {
        proof {
            use_type_invariant(&*self);
        }
        let start: usize = self.address_register as usize;
        if start + x as usize >= RAM_SIZE {
            return Err(EngineError::OutOfBoundsAccess);
        }
        let mut r: usize = 0;
        while r <= x as usize
            invariant
                r <= x + 1,
                x < 16,
                start == old(self)@.address,
                start + x < RAM_SIZE,
                old(self)@.memory.len() == RAM_SIZE,
                self@ == (Machine {
                    memory: Seq::new(
                        RAM_SIZE as nat,
                        |a: int|
                            if start <= a < start + r {
                                old(self)@.registers[a - start]
                            } else {
                                old(self)@.memory[a]
                            },
                    ),
                    ..old(self)@
                }),
            decreases x + 1 - r,
        {
            proof {
                use_type_invariant(&*self);
            }
            self.memory[start + r] = self.registers[r];
            r += 1;
            proof {
                assert(self@.memory =~= Seq::new(
                    RAM_SIZE as nat,
                    |a: int|
                        if start <= a < start + r {
                            old(self)@.registers[a - start]
                        } else {
                            old(self)@.memory[a]
                        },
                ));
            }
        }
        proof {
            let m = old(self)@;
            let i = m.address as int;
            assert(self@.memory =~= Seq::new(
                m.memory.len(),
                |a: int|
                    if i <= a <= i + x {
                        m.registers[a - i]
                    } else {
                        m.memory[a]
                    },
            ));
        }
        Ok(())
    }

    /// Fills `V0..=Vx` from memory from the address register on.
    fn load_registers(&mut self, x: u8) -> (loaded: Result<(), EngineError>)
        requires
            x < 16,
        ensures
            (final(self)@, loaded) == ({
                let m = old(self)@;
                let i = m.address as int;
                if i + x >= RAM_SIZE {
                    (m, Err::<(), EngineError>(EngineError::OutOfBoundsAccess))
                } else {
                    (
                        Machine {
                            registers: Seq::new(
                                m.registers.len(),
                                |r: int|
                                    if r <= x {
                                        m.memory[i + r]
                                    } else {
                                        m.registers[r]
                                    },
                            ),
                            ..m
                        },
                        Ok::<(), EngineError>(()),
                    )
                }
            }),
    {
        proof {
            use_type_invariant(&*self);
        }
        let start: usize = self.address_register as usize;
        if start + x as usize >= RAM_SIZE {
            return Err(EngineError::OutOfBoundsAccess);
        }
        let mut r: usize = 0;
        while r <= x as usize
            invariant
                r <= x + 1,
                x < 16,
                start == old(self)@.address,
                start + x < RAM_SIZE,
                old(self)@.memory.len() == RAM_SIZE,
                self@ == (Machine {
                    registers: Seq::new(
                        16,
                        |k: int|
                            if k < r {
                                old(self)@.memory[start + k]
                            } else {
                                old(self)@.registers[k]
                            },
                    ),
                    ..old(self)@
                }),
            decreases x + 1 - r,
        {
            proof {
                use_type_invariant(&*self);
            }
            self.registers[r] = self.memory[start + r];
            r += 1;
            proof {
                assert(self@.registers =~= Seq::new(
                    16,
                    |k: int|
                        if k < r {
                            old(self)@.memory[start + k]
                        } else {
                            old(self)@.registers[k]
                        },
                ));
            }
        }
        proof {
            let m = old(self)@;
            let i = m.address as int;
            assert(self@.registers =~= Seq::new(
                m.registers.len(),
                |k: int|
                    if k <= x {
                        m.memory[i + k]
                    } else {
                        m.registers[k]
                    },
            ));
        }
        Ok(())
    }

    /// Executes one instruction on a machine whose program counter already
    /// points behind it. `random` is used by `RND` alone.
    #[verifier::rlimit(40)]
    fn execute_instruction(&mut self, instruction: Instruction, random: u8) -> (outcome: Result<
        Action,
        EngineError,
    >)
        requires
            instruction.well_formed(),
            old(self)@.pending is Ready,
            old(self)@.program_counter <= RAM_SIZE,
        ensures
            (final(self)@, outcome) == execute_spec(old(self)@, instruction, random),
    {
        proof {
            use_type_invariant(&*self);
        }
        let ghost before = self@;
        let mut action = Action::Continue;
        match instruction {
            Instruction::Sys(addr) | Instruction::Call(addr) => {
                match self.push_subroutine(addr) {
                    Ok(()) => {},
                    Err(e) => {
                        return Err(e);
                    },
                }
            },
            Instruction::Cls => {
                self.frame_buffer = [0; 32];
                action = Action::Clear;
                assert(self@ =~= (Machine { frame: blank_frame(), ..before }));
            },
            Instruction::Ret => {
                match self.pop_subroutine() {
                    Ok(()) => {},
                    Err(e) => {
                        return Err(e);
                    },
                }
            },
            Instruction::JpAddr(addr) => {
                self.program_counter = addr;
                assert(self@ =~= (Machine { program_counter: addr, ..before }));
            },
            Instruction::SeVxByte(x, kk) => {
                self.skip_if(self.registers[x as usize] == kk);
            },
            Instruction::SneVxByte(x, kk) => {
                self.skip_if(self.registers[x as usize] != kk);
            },
            Instruction::SeVxVy(x, y) => {
                self.skip_if(self.registers[x as usize] == self.registers[y as usize]);
            },
            Instruction::SneVxVy(x, y) => {
                self.skip_if(self.registers[x as usize] != self.registers[y as usize]);
            },
            Instruction::LdVxByte(x, kk) => {
                self.set_register(x, kk);
            },
            Instruction::AddVxByte(x, kk) => {
                let vx: u8 = self.registers[x as usize];
                proof {
                    lemma_wrapping_u8(vx, kk);
                }
                self.set_register(x, vx.wrapping_add(kk));
            },
            Instruction::LdVxVy(x, y) => {
                self.set_register(x, self.registers[y as usize]);
            },
            Instruction::Or(x, y) => {
                self.set_register(x, self.registers[x as usize] | self.registers[y as usize]);
            },
            Instruction::And(x, y) => {
                self.set_register(x, self.registers[x as usize] & self.registers[y as usize]);
            },
            Instruction::Xor(x, y) => {
                self.set_register(x, self.registers[x as usize] ^ self.registers[y as usize]);
            },
            Instruction::AddVxVy(x, y) => {
                let vx: u8 = self.registers[x as usize];
                let vy: u8 = self.registers[y as usize];
                proof {
                    lemma_wrapping_u8(vx, vy);
                }
                self.set_flagged(x, vx.wrapping_add(vy), vx as u16 + vy as u16 > 255);
            },
            Instruction::Sub(x, y) => {
                let vx: u8 = self.registers[x as usize];
                let vy: u8 = self.registers[y as usize];
                proof {
                    lemma_wrapping_u8(vx, vy);
                }
                self.set_flagged(x, vx.wrapping_sub(vy), vx >= vy);
            },
            Instruction::Subn(x, y) => {
                let vx: u8 = self.registers[x as usize];
                let vy: u8 = self.registers[y as usize];
                proof {
                    lemma_wrapping_u8(vy, vx);
                }
                self.set_flagged(x, vy.wrapping_sub(vx), vy >= vx);
            },
            Instruction::Shr(x, y) => {
                let vy: u8 = self.registers[y as usize];
                assert(vy >> 1 == vy / 2 && ((vy & 1) == 1) == (vy % 2 == 1)) by (bit_vector);
                self.set_flagged(x, vy >> 1, (vy & 1) == 1);
            },
            Instruction::Shl(x, y) => {
                let vy: u8 = self.registers[y as usize];
                assert(vy << 1 == (vy * 2) % 256 && (((vy >> 7) & 1) == 1) == (vy >= 128))
                    by (bit_vector);
                self.set_flagged(x, vy << 1, ((vy >> 7) & 1) == 1);
            },
            Instruction::LdIAddr(addr) => {
                self.address_register = addr;
                assert(self@ =~= (Machine { address: addr, ..before }));
            },
            Instruction::JpV0Addr(addr) => {
                proof {
                    lemma_wrapping_u16(addr, self.registers[0]);
                }
                self.program_counter = addr.wrapping_add(self.registers[0] as u16);
                assert(self@ =~= (Machine {
                    program_counter: ((addr + before.v(0)) % 0x10000) as u16,
                    ..before
                }));
            },
            Instruction::Rnd(x, kk) => {
                self.set_register(x, random & kk);
            },
            Instruction::Drw(x, y, n) => {
                match self.draw_sprite(self.registers[x as usize], self.registers[y as usize], n) {
                    Ok(()) => {
                        action = Action::Redraw;
                    },
                    Err(e) => {
                        return Err(e);
                    },
                }
            },
            Instruction::Skp(x) => {
                let key: u8 = self.registers[x as usize];
                if key < 16 {
                    self.pending = Pending::KeyQuery { key, skip_if_pressed: true };
                    action = Action::QueryKey(key);
                    assert(self@ =~= (Machine { pending: self.pending, ..before }));
                }
            },
            Instruction::Sknp(x) => {
                let key: u8 = self.registers[x as usize];
                if key < 16 {
                    self.pending = Pending::KeyQuery { key, skip_if_pressed: false };
                    action = Action::QueryKey(key);
                    assert(self@ =~= (Machine { pending: self.pending, ..before }));
                } else {
                    self.skip_if(true);
                }
            },
            Instruction::LdVxDt(x) => {
                self.set_register(x, self.timer_register);
            },
            Instruction::LdVxK(x) => {
                self.pending = Pending::KeyWait { register: x };
                action = Action::WaitKey;
                assert(self@ =~= (Machine { pending: self.pending, ..before }));
            },
            Instruction::LdDtVx(x) => {
                self.timer_register = self.registers[x as usize];
                assert(self@ =~= (Machine { delay_timer: before.v(x), ..before }));
            },
            Instruction::LdStVx(x) => {
                let value: u8 = self.registers[x as usize];
                action = Self::audio_command(self.sound_register, value);
                self.sound_register = value;
                assert(self@ =~= (Machine { sound_timer: before.v(x), ..before }));
            },
            Instruction::AddIVx(x) => {
                proof {
                    lemma_wrapping_u16(self.address_register, self.registers[x as int]);
                }
                self.address_register = self.address_register.wrapping_add(
                    self.registers[x as usize] as u16,
                );
                assert(self@ =~= (Machine {
                    address: ((before.address + before.v(x)) % 0x10000) as u16,
                    ..before
                }));
            },
            Instruction::LdFVx(x) => {
                proof {
                    lemma_wrapping_u8(self.registers[x as int], 0);
                }
                self.address_register = self.registers[x as usize].wrapping_mul(5) as u16;
                assert(self@ =~= (Machine { address: ((5 * before.v(x)) % 256) as u16, ..before }));
            },
            Instruction::LdBVx(x) => {
                match self.store_decimal(self.registers[x as usize]) {
                    Ok(()) => {},
                    Err(e) => {
                        return Err(e);
                    },
                }
            },
            Instruction::LdIVx(x) => {
                match self.store_registers(x) {
                    Ok(()) => {},
                    Err(e) => {
                        return Err(e);
                    },
                }
            },
            Instruction::LdVxI(x) => {
                match self.load_registers(x) {
                    Ok(()) => {},
                    Err(e) => {
                        return Err(e);
                    },
                }
            },
        }
        Ok(action)
    }

    /// The audio command that a change of the sound timer calls for.
    fn audio_command(before: u8, after: u8) -> (action: Action)
        ensures
            action == audio_change(before, after),
    {
        if before == 0 && after != 0 {
            Action::Audio(true)
        } else if before != 0 && after == 0 {
            Action::Audio(false)
        } else {
            Action::Continue
        }
    }

    /// Fetches and decodes the word at the program counter, unless the
    /// engine is suspended.
    fn fetch(&self) -> (fetched: Fetched)
        ensures
            fetched matches Fetched::Settled(outcome) ==> forall|random: u8|
                #[trigger] cycle_spec(self@, random) == (self@, outcome),
            fetched matches Fetched::Run(instruction) ==> {
                &&& self@.pending is Ready
                &&& self@.program_counter + 1 < RAM_SIZE
                &&& word_at(self@.memory, self@.program_counter as int) != 0
                &&& crate::instruction::decode_spec(
                    word_at(self@.memory, self@.program_counter as int),
                ) == Ok::<Instruction, EngineError>(instruction)
                &&& instruction.well_formed()
            },
    {
        match self.pending {
            Pending::Ready => {},
            Pending::KeyQuery { key, .. } => {
                return Fetched::Settled(Ok(Action::QueryKey(key)));
            },
            Pending::KeyWait { .. } => {
                return Fetched::Settled(Ok(Action::WaitKey));
            },
        }
        match self.read_u16(self.program_counter as usize) {
            None => Fetched::Settled(Err(EngineError::OutOfBoundsAccess)),
            Some(word) => {
                if word == 0 {
                    Fetched::Settled(Ok(Action::Halt))
                } else {
                    match Instruction::decode(word) {
                        Ok(instruction) => Fetched::Run(instruction),
                        Err(e) => Fetched::Settled(Err(e)),
                    }
                }
            },
        }
    }

    /// Moves the program counter behind the fetched instruction and
    /// executes it; a failure puts the program counter back.
    fn run(&mut self, instruction: Instruction, random: u8) -> (outcome: Result<
        Action,
        EngineError,
    >)
        requires
            instruction.well_formed(),
            old(self)@.pending is Ready,
            old(self)@.program_counter + 1 < RAM_SIZE,
        ensures
            (final(self)@, outcome) == ({
                let m = old(self)@;
                let advanced = Machine { program_counter: (m.program_counter + 2) as u16, ..m };
                let (after, outcome) = execute_spec(advanced, instruction, random);
                if outcome is Err {
                    (m, outcome)
                } else {
                    (after, outcome)
                }
            }),
            final(self)@.well_formed(),
    {
        proof {
            use_type_invariant(&*self);
        }
        self.program_counter = self.program_counter + 2;
        assert(self@ =~= (Machine {
            program_counter: (old(self)@.program_counter + 2) as u16,
            ..old(self)@
        }));
        let outcome = self.execute_instruction(instruction, random);
        proof {
            use_type_invariant(&*self);
        }
        if outcome.is_err() {
            self.program_counter = self.program_counter - 2;
            assert(self@ =~= old(self)@);
        }
        proof {
            use_type_invariant(&*self);
        }
        outcome
    }

    /// Runs one cycle with `random` as the byte that `RND` would draw:
    /// a suspended engine repeats its request; else the word at the
    /// program counter is fetched, decoded and executed. A zero word ends
    /// the program. A cycle that fails leaves the machine as it was.
    pub fn step_with(&mut self, random: u8) -> (outcome: Result<Action, EngineError>)
        ensures
            (final(self)@, outcome) == cycle_spec(old(self)@, random),
            final(self)@.well_formed(),
    {
        proof {
            use_type_invariant(&*self);
        }
        match self.fetch() {
            Fetched::Settled(outcome) => outcome,
            Fetched::Run(instruction) => self.run(instruction, random),
        }
    }

    /// Runs one cycle, drawing a random byte where the instruction is
    /// `RND`. The outcome is that of `step_with` for some byte.
    pub fn step(&mut self) -> (outcome: Result<Action, EngineError>)
        ensures
            exists|random: u8| (final(self)@, outcome) == #[trigger] cycle_spec(old(self)@, random),
            final(self)@.well_formed(),
    {
        proof {
            use_type_invariant(&*self);
        }
        match self.fetch() {
            Fetched::Settled(outcome) => {
                assert((self@, outcome) == cycle_spec(old(self)@, 0u8));
                outcome
            },
            Fetched::Run(instruction) => {
                let random: u8 = match instruction {
                    Instruction::Rnd(_, _) => random_byte(),
                    _ => 0,
                };
                let outcome = self.run(instruction, random);
                assert((self@, outcome) == cycle_spec(old(self)@, random));
                outcome
            },
        }
    }

    /// Runs cycles until one of them asks something of the outside world,
    /// ends the program or fails, but no more than `cycles` of them. The
    /// timers stand still meanwhile. `Ok(Action::Continue)` says that all
    /// `cycles` cycles were run and none of these happened.
    pub fn execute(&mut self, cycles: u32) -> (outcome: Result<Action, EngineError>)
        ensures
            exists|randoms: Seq<u8>|
                {
                    &&& randoms.len() <= cycles
                    &&& (final(self)@, outcome) == #[trigger] run_spec(old(self)@, randoms)
                    &&& outcome == Ok::<Action, EngineError>(Action::Continue) ==> randoms.len()
                        == cycles
                },
            final(self)@.well_formed(),
    {
        proof {
            use_type_invariant(&*self);
        }
        let mut done: u32 = 0;
        let ghost mut used: Seq<u8> = Seq::empty();
        while done < cycles
            invariant
                done <= cycles,
                used.len() == done,
                run_spec(old(self)@, used) == (self@, Ok::<Action, EngineError>(Action::Continue)),
                self@.well_formed(),
            decreases cycles - done,
        {
            let ghost before = self@;
            let ghost earlier = used;
            let outcome = self.step();
            proof {
                let random = choose|random: u8|
                    (self@, outcome) == #[trigger] cycle_spec(before, random);
                used = earlier.push(random);
                assert(used.drop_last() =~= earlier);
                assert(run_spec(old(self)@, used) == (self@, outcome));
            }
            match outcome {
                Ok(Action::Continue) => {},
                _ => {
                    return outcome;
                },
            }
            done = done + 1;
        }
        Ok(Action::Continue)
    }

    /// Hands the engine the answer to its last request.
    pub fn respond(&mut self, response: Response) -> (outcome: Result<(), EngineError>)
        ensures
            (final(self)@, outcome) == respond_spec(old(self)@, response),
            final(self)@.well_formed(),
    {
        proof {
            use_type_invariant(&*self);
        }
        let outcome = match (self.pending, response) {
            (Pending::KeyQuery { key, skip_if_pressed }, Response::KeyState(pressed)) => {
                self.pending = Pending::Ready;
                self.skip_if(pressed == skip_if_pressed);
                Ok(())
            },
            (Pending::KeyQuery { key, skip_if_pressed }, Response::Unavailable) => {
                self.pending = Pending::Ready;
                self.skip_if(!skip_if_pressed);
                Ok(())
            },
            (Pending::KeyWait { register }, Response::KeyReleased(key)) => {
                self.pending = Pending::Ready;
                self.set_register(register, key);
                Ok(())
            },
            (Pending::KeyWait { register }, Response::Unavailable) => Err(
                EngineError::CollaboratorUnavailable,
            ),
            _ => Ok(()),
        };
        proof {
            use_type_invariant(&*self);
            assert(self@ =~= respond_spec(old(self)@, response).0);
        }
        outcome
    }

    /// Lets `periods` sixtieths of a second pass: both timers count down
    /// by that much and stop at zero. Says whether the tone has to stop.
    pub fn tick_timers(&mut self, periods: u64) -> (action: Action)
        ensures
            (final(self)@, action) == tick_spec(old(self)@, periods as nat),
            final(self)@.well_formed(),
    {
        proof {
            use_type_invariant(&*self);
        }
        let steps: u8 = if periods > 255 { 255 } else { periods as u8 };
        let sound_before: u8 = self.sound_register;
        self.timer_register = self.timer_register.saturating_sub(steps);
        self.sound_register = self.sound_register.saturating_sub(steps);
        proof {
            assert(self@ =~= tick_spec(old(self)@, periods as nat).0);
        }
        Self::audio_command(sound_before, self.sound_register)
    }

    /// Renders the memory as text for a diagnostic dump: one line for
    /// every 32 bytes, two hexadecimal digits per byte, nothing between.
    pub fn dump_memory(&self) -> (lines: Vec<String>)
        ensures
            lines@.len() == RAM_SIZE / 32,
            forall|k: int|
                0 <= k < lines@.len() ==> (#[trigger] lines@[k])@ == hex_line(
                    self@.memory.subrange(32 * k, 32 * k + 32),
                ),
    {
        proof {
            use_type_invariant(self);
        }
        let mut lines: Vec<String> = Vec::new();
        let mut chunk: usize = 0;
        while chunk < RAM_SIZE / 32
            invariant
                chunk <= RAM_SIZE / 32,
                self.memory@.len() == RAM_SIZE,
                lines@.len() == chunk,
                forall|k: int|
                    0 <= k < chunk ==> (#[trigger] lines@[k])@ == hex_line(
                        self@.memory.subrange(32 * k, 32 * k + 32),
                    ),
            decreases RAM_SIZE / 32 - chunk,
        {
            let mut line = String::new();
            let mut i: usize = 0;
            while i < 32
                invariant
                    i <= 32,
                    chunk < RAM_SIZE / 32,
                    self.memory@.len() == RAM_SIZE,
                    line@ == hex_line(self@.memory.subrange(32 * chunk, 32 * chunk + i)),
                decreases 32 - i,
            {
                let byte: u8 = self.memory[32 * chunk + i];
                push_hex_byte(&mut line, byte);
                proof {
                    let done = self@.memory.subrange(32 * chunk, 32 * chunk + i);
                    let next = self@.memory.subrange(32 * chunk, 32 * chunk + i + 1);
                    assert(next.drop_last() =~= done);
                    assert(next.last() == byte);
                }
                i += 1;
            }
            lines.push(line);
            chunk += 1;
        }
        lines
    }

    /// The registers `V0` to `VF`.
    pub fn registers(&self) -> (registers: &[u8; 16])
        ensures
            registers@ == self@.registers,
    {
        &self.registers
    }

    /// The 4096 bytes of memory.
    pub fn memory(&self) -> (memory: &[u8])
        ensures
            memory@ == self@.memory,
    {
        self.memory.as_slice()
    }

    /// The rows of the display, the top row first; bit `63 - x` of a row
    /// is column `x`.
    pub fn frame_buffer(&self) -> (rows: &[u64; 32])
        ensures
            rows@ == self@.frame,
    {
        &self.frame_buffer
    }

    /// The address of the next instruction.
    pub fn program_counter(&self) -> (pc: u16)
        ensures
            pc == self@.program_counter,
    {
        self.program_counter
    }

    /// The address register `I`.
    pub fn address_register(&self) -> (address: u16)
        ensures
            address == self@.address,
    {
        self.address_register
    }

    /// The delay timer.
    pub fn delay_timer(&self) -> (timer: u8)
        ensures
            timer == self@.delay_timer,
    {
        self.timer_register
    }

    /// The sound timer.
    pub fn sound_timer(&self) -> (timer: u8)
        ensures
            timer == self@.sound_timer,
    {
        self.sound_register
    }

    /// The number of calls under way.
    pub fn stack_depth(&self) -> (depth: usize)
        ensures
            depth == self@.stack.len(),
    {
        proof {
            use_type_invariant(self);
        }
        self.stack_pointer as usize
    }

    /// The answer that the engine waits for.
    pub fn pending(&self) -> (pending: Pending)
        ensures
            pending == self@.pending,
    {
        self.pending
    }
}

} // verus!
