//! The abstract machine: the state that contracts speak of, and the
//! meaning of every instruction, cycle, answer and timer tick as
//! functions from one state to the next.

use vstd::prelude::*;
use crate::display::draw_rows;
use crate::error::EngineError;
use crate::instruction::{decode_spec, Instruction};

verus! {

/// Number of bytes of memory; addresses run from `0x000` to `0xFFF`.
pub const RAM_SIZE: usize = 0x1000;

/// Address at which a program is loaded and started.
pub const PROGRAM_START: usize = 0x200;

/// Index of `VF`, the register that instructions use as a flag.
pub const REG_VF: usize = 15;

/// Number of return addresses that the call stack holds.
pub const STACK_SIZE: usize = 16;

/// What the engine asks of the display and keyboard side after a cycle.
#[derive(Clone, Copy, Debug, PartialEq, Eq, Structural)]
pub enum Action {
    /// Nothing; run the next cycle.
    Continue,
    /// The program ended: the word at the program counter is zero.
    Halt,
    /// The display changed; show it.
    Redraw,
    /// The display was cleared; clear the screen.
    Clear,
    /// Start (`true`) or stop (`false`) the tone.
    Audio(bool),
    /// Say whether this key (0 to 15) is down.
    QueryKey(u8),
    /// Say which key is released next.
    WaitKey,
}

/// What the display and keyboard side answers.
#[derive(Clone, Copy, Debug, PartialEq, Eq, Structural)]
pub enum Response {
    /// The key asked about is down (`true`) or up (`false`).
    KeyState(bool),
    /// This key was released.
    KeyReleased(u8),
    /// Nobody is there to answer.
    Unavailable,
}

/// The answer that the engine is waiting for, if any.
#[derive(Clone, Copy, Debug, PartialEq, Eq, Structural)]
pub enum Pending {
    /// No answer is owed; the next cycle can run.
    Ready,
    /// A skip instruction asked whether `key` is down, and skips if the
    /// answer equals `skip_if_pressed`.
    KeyQuery { key: u8, skip_if_pressed: bool },
    /// `LD Vx, K` waits for a key to store in this register.
    KeyWait { register: u8 },
}

/// The state of the machine as mathematics.
#[verifier::ext_equal]
pub struct Machine {
    /// The 4096 bytes of memory.
    pub memory: Seq<u8>,
    /// The registers `V0` to `VF`.
    pub registers: Seq<u8>,
    /// The address register `I`.
    pub address: u16,
    /// The delay timer.
    pub delay_timer: u8,
    /// The sound timer; the tone plays while it is not zero.
    pub sound_timer: u8,
    /// The address of the next instruction.
    pub program_counter: u16,
    /// The return addresses of the calls under way, the oldest first.
    pub stack: Seq<u16>,
    /// The 32 rows of the display, the top row first.
    pub frame: Seq<u64>,
    /// The answer that the engine waits for.
    pub pending: Pending,
}

impl Machine {
    /// The sizes are right, and a suspended instruction can be completed.
    pub open spec fn well_formed(self) -> bool {
        &&& self.memory.len() == RAM_SIZE
        &&& self.registers.len() == 16
        &&& self.stack.len() <= STACK_SIZE
        &&& self.frame.len() == 32
        &&& match self.pending {
            Pending::Ready => true,
            Pending::KeyQuery { key, .. } => key < 16 && self.program_counter <= RAM_SIZE,
            Pending::KeyWait { register } => register < 16,
        }
    }

    /// The value of register `Vx`.
    pub open spec fn v(self, x: u8) -> u8 {
        self.registers[x as int]
    }

    /// This state with `Vx` set to `value`.
    pub open spec fn with_register(self, x: u8, value: u8) -> Machine {
        Machine { registers: self.registers.update(x as int, value), ..self }
    }

    /// This state with `Vx` set to `value` and then `VF` to the flag, so
    /// that the flag wins where `x` is 15.
    pub open spec fn with_flagged(self, x: u8, value: u8, flag: bool) -> Machine {
        Machine {
            registers: self.registers.update(x as int, value).update(
                REG_VF as int,
                if flag { 1u8 } else { 0u8 },
            ),
            ..self
        }
    }

    /// This state with the next instruction skipped if `skip` holds.
    pub open spec fn with_skip(self, skip: bool) -> Machine {
        if skip {
            Machine { program_counter: (self.program_counter + 2) as u16, ..self }
        } else {
            self
        }
    }
}

/// A display with every pixel off.
pub open spec fn blank_frame() -> Seq<u64> {
    Seq::new(32, |r: int| 0u64)
}

/// The command that a change of the sound timer calls for: the tone
/// starts when the timer leaves zero and stops when it reaches zero.
pub open spec fn audio_change(before: u8, after: u8) -> Action {
    if before == 0 && after != 0 {
        Action::Audio(true)
    } else if before != 0 && after == 0 {
        Action::Audio(false)
    } else {
        Action::Continue
    }
}

/// The request that a suspended engine repeats.
pub open spec fn request_of(pending: Pending) -> Action {
    match pending {
        Pending::Ready => Action::Continue,
        Pending::KeyQuery { key, .. } => Action::QueryKey(key),
        Pending::KeyWait { .. } => Action::WaitKey,
    }
}

/// What one instruction does to a state whose program counter already
/// points behind it. A failing instruction leaves the state as it was.
///
/// Eight-bit arithmetic wraps modulo 256 and the address register modulo
/// 65536. The shifts take `Vy` and store into `Vx`. A call stores the
/// address behind itself; sixteen of them fit. A draw sets `VF` if any
/// of its rows turned a lit pixel off. The skips on a key suspend the
/// engine with a question, unless `Vx` is above 15: such a value names
/// no key, which counts as up.
pub open spec fn execute_spec(m: Machine, instruction: Instruction, random: u8) -> (
    Machine,
    Result<Action, EngineError>,
) {
    let i = m.address as int;
    match instruction {
        Instruction::Sys(addr) | Instruction::Call(addr) => {
            if m.stack.len() >= STACK_SIZE {
                (m, Err(EngineError::StackOverflow))
            } else {
                (
                    Machine { stack: m.stack.push(m.program_counter), program_counter: addr, ..m },
                    Ok(Action::Continue),
                )
            }
        },
        Instruction::Cls => (Machine { frame: blank_frame(), ..m }, Ok(Action::Clear)),
        Instruction::Ret => {
            if m.stack.len() == 0 {
                (m, Err(EngineError::StackUnderflow))
            } else {
                (
                    Machine { program_counter: m.stack.last(), stack: m.stack.drop_last(), ..m },
                    Ok(Action::Continue),
                )
            }
        },
        Instruction::JpAddr(addr) => (Machine { program_counter: addr, ..m }, Ok(Action::Continue)),
        Instruction::SeVxByte(x, kk) => (m.with_skip(m.v(x) == kk), Ok(Action::Continue)),
        Instruction::SneVxByte(x, kk) => (m.with_skip(m.v(x) != kk), Ok(Action::Continue)),
        Instruction::SeVxVy(x, y) => (m.with_skip(m.v(x) == m.v(y)), Ok(Action::Continue)),
        Instruction::SneVxVy(x, y) => (m.with_skip(m.v(x) != m.v(y)), Ok(Action::Continue)),
        Instruction::LdVxByte(x, kk) => (m.with_register(x, kk), Ok(Action::Continue)),
        Instruction::AddVxByte(x, kk) => (
            m.with_register(x, ((m.v(x) + kk) % 256) as u8),
            Ok(Action::Continue),
        ),
        Instruction::LdVxVy(x, y) => (m.with_register(x, m.v(y)), Ok(Action::Continue)),
        Instruction::Or(x, y) => (m.with_register(x, m.v(x) | m.v(y)), Ok(Action::Continue)),
        Instruction::And(x, y) => (m.with_register(x, m.v(x) & m.v(y)), Ok(Action::Continue)),
        Instruction::Xor(x, y) => (m.with_register(x, m.v(x) ^ m.v(y)), Ok(Action::Continue)),
        Instruction::AddVxVy(x, y) => (
            m.with_flagged(x, ((m.v(x) + m.v(y)) % 256) as u8, m.v(x) + m.v(y) > 255),
            Ok(Action::Continue),
        ),
        Instruction::Sub(x, y) => (
            m.with_flagged(x, ((m.v(x) - m.v(y)) % 256) as u8, m.v(x) >= m.v(y)),
            Ok(Action::Continue),
        ),
        Instruction::Subn(x, y) => (
            m.with_flagged(x, ((m.v(y) - m.v(x)) % 256) as u8, m.v(y) >= m.v(x)),
            Ok(Action::Continue),
        ),
        Instruction::Shr(x, y) => (
            m.with_flagged(x, m.v(y) / 2, m.v(y) % 2 == 1),
            Ok(Action::Continue),
        ),
        Instruction::Shl(x, y) => (
            m.with_flagged(x, ((m.v(y) * 2) % 256) as u8, m.v(y) >= 128),
            Ok(Action::Continue),
        ),
        Instruction::LdIAddr(addr) => (Machine { address: addr, ..m }, Ok(Action::Continue)),
        Instruction::JpV0Addr(addr) => (
            Machine { program_counter: ((addr + m.v(0)) % 0x10000) as u16, ..m },
            Ok(Action::Continue),
        ),
        Instruction::Rnd(x, kk) => (m.with_register(x, random & kk), Ok(Action::Continue)),
        Instruction::Drw(x, y, n) => {
            if i + n > RAM_SIZE {
                (m, Err(EngineError::OutOfBoundsAccess))
            } else {
                let (frame, collided) = draw_rows(
                    m.frame,
                    m.memory.subrange(i, i + n),
                    m.v(x),
                    m.v(y),
                );
                (
                    Machine {
                        frame,
                        registers: m.registers.update(
                            REG_VF as int,
                            if collided { 1u8 } else { 0u8 },
                        ),
                        ..m
                    },
                    Ok(Action::Redraw),
                )
            }
        },
        Instruction::Skp(x) => {
            if m.v(x) >= 16 {
                (m, Ok(Action::Continue))
            } else {
                (
                    Machine {
                        pending: Pending::KeyQuery { key: m.v(x), skip_if_pressed: true },
                        ..m
                    },
                    Ok(Action::QueryKey(m.v(x))),
                )
            }
        },
        Instruction::Sknp(x) => {
            if m.v(x) >= 16 {
                (m.with_skip(true), Ok(Action::Continue))
            } else {
                (
                    Machine {
                        pending: Pending::KeyQuery { key: m.v(x), skip_if_pressed: false },
                        ..m
                    },
                    Ok(Action::QueryKey(m.v(x))),
                )
            }
        },
        Instruction::LdVxDt(x) => (m.with_register(x, m.delay_timer), Ok(Action::Continue)),
        Instruction::LdVxK(x) => (
            Machine { pending: Pending::KeyWait { register: x }, ..m },
            Ok(Action::WaitKey),
        ),
        Instruction::LdDtVx(x) => (Machine { delay_timer: m.v(x), ..m }, Ok(Action::Continue)),
        Instruction::LdStVx(x) => (
            Machine { sound_timer: m.v(x), ..m },
            Ok(audio_change(m.sound_timer, m.v(x))),
        ),
        Instruction::AddIVx(x) => (
            Machine { address: ((m.address + m.v(x)) % 0x10000) as u16, ..m },
            Ok(Action::Continue),
        ),
        Instruction::LdFVx(x) => (
            Machine { address: ((5 * m.v(x)) % 256) as u16, ..m },
            Ok(Action::Continue),
        ),
        Instruction::LdBVx(x) => {
            if i + 2 >= RAM_SIZE {
                (m, Err(EngineError::OutOfBoundsAccess))
            } else {
                (
                    Machine {
                        memory: m.memory.update(i, m.v(x) / 100).update(
                            i + 1,
                            (m.v(x) / 10) % 10,
                        ).update(i + 2, m.v(x) % 10),
                        ..m
                    },
                    Ok(Action::Continue),
                )
            }
        },
        Instruction::LdIVx(x) => {
            if i + x >= RAM_SIZE {
                (m, Err(EngineError::OutOfBoundsAccess))
            } else {
                (
                    Machine {
                        memory: Seq::new(
                            m.memory.len(),
                            |a: int|
                                if i <= a <= i + x {
                                    m.registers[a - i]
                                } else {
                                    m.memory[a]
                                },
                        ),
                        ..m
                    },
                    Ok(Action::Continue),
                )
            }
        },
        Instruction::LdVxI(x) => {
            if i + x >= RAM_SIZE {
                (m, Err(EngineError::OutOfBoundsAccess))
            } else {
                (
                    Machine {
                        registers: Seq::new(
                            m.registers.len(),
                            |r: int|
                                if r <= x {
                                    m.memory[i + r]
                                } else {
                                    m.registers[r]
                                },
                        ),
                        ..m
                    },
                    Ok(Action::Continue),
                )
            }
        },
    }
}

/// The big-endian word at the program counter.
pub open spec fn word_at(memory: Seq<u8>, address: int) -> u16 {
    (memory[address] * 256 + memory[address + 1]) as u16
}

/// One cycle of the engine: a suspended engine repeats its request; else
/// the word at the program counter is fetched, a zero word ends the
/// program, any other word is decoded, the program counter moves behind
/// it, and the instruction is executed. A cycle that fails changes nothing.
pub open spec fn cycle_spec(m: Machine, random: u8) -> (Machine, Result<Action, EngineError>) {
    let pc = m.program_counter as int;
    if m.pending != Pending::Ready {
        (m, Ok(request_of(m.pending)))
    } else if pc + 1 >= RAM_SIZE {
        (m, Err(EngineError::OutOfBoundsAccess))
    } else if word_at(m.memory, pc) == 0 {
        (m, Ok(Action::Halt))
    } else {
        match decode_spec(word_at(m.memory, pc)) {
            Err(e) => (m, Err(e)),
            Ok(instruction) => {
                let advanced = Machine { program_counter: (pc + 2) as u16, ..m };
                let (after, outcome) = execute_spec(advanced, instruction, random);
                if outcome is Err {
                    (m, outcome)
                } else {
                    (after, outcome)
                }
            },
        }
    }
}

/// Cycles run one after the other, the k-th with the k-th of the given
/// random bytes, up to the first whose outcome is anything but
/// `Continue`; the bytes behind that one are not used.
pub open spec fn run_spec(m: Machine, randoms: Seq<u8>) -> (Machine, Result<Action, EngineError>)
    decreases randoms.len(),
{
    if randoms.len() == 0 {
        (m, Ok(Action::Continue))
    } else {
        let (before, outcome) = run_spec(m, randoms.drop_last());
        if outcome == Ok::<Action, EngineError>(Action::Continue) {
            cycle_spec(before, randoms.last())
        } else {
            (before, outcome)
        }
    }
}

/// What an answer does to a suspended engine. A key state completes a
/// skip instruction, and so does a missing answer, which counts as "up".
/// A released key completes `LD Vx, K`; a missing answer there is fatal
/// and leaves the engine waiting. Any other answer is ignored.
pub open spec fn respond_spec(m: Machine, response: Response) -> (
    Machine,
    Result<(), EngineError>,
) {
    match (m.pending, response) {
        (Pending::KeyQuery { key, skip_if_pressed }, Response::KeyState(pressed)) => (
            Machine { pending: Pending::Ready, ..m.with_skip(pressed == skip_if_pressed) },
            Ok(()),
        ),
        (Pending::KeyQuery { key, skip_if_pressed }, Response::Unavailable) => (
            Machine { pending: Pending::Ready, ..m.with_skip(!skip_if_pressed) },
            Ok(()),
        ),
        (Pending::KeyWait { register }, Response::KeyReleased(key)) => (
            Machine { pending: Pending::Ready, ..m.with_register(register, key) },
            Ok(()),
        ),
        (Pending::KeyWait { register }, Response::Unavailable) => (
            m,
            Err(EngineError::CollaboratorUnavailable),
        ),
        _ => (m, Ok(())),
    }
}

/// A timer after `periods` sixtieths of a second: it counts down and
/// stops at zero.
pub open spec fn decayed(timer: u8, periods: nat) -> u8 {
    if periods >= timer {
        0u8
    } else {
        (timer - periods) as u8
    }
}

/// The state after `periods` timer periods, and the audio command that
/// the sound timer's change calls for.
pub open spec fn tick_spec(m: Machine, periods: nat) -> (Machine, Action) {
    (
        Machine {
            delay_timer: decayed(m.delay_timer, periods),
            sound_timer: decayed(m.sound_timer, periods),
            ..m
        },
        audio_change(m.sound_timer, decayed(m.sound_timer, periods)),
    )
}

} // verus!
