//! What holds of every state and every step of the abstract machine.

use vstd::prelude::*;
use crate::display::{lemma_draw_rows_by_row, lemma_draw_twice_restores};
use crate::error::EngineError;
use crate::instruction::{decode_spec, Instruction};
use crate::machine::{
    cycle_spec, decayed, execute_spec, respond_spec, run_spec, tick_spec, word_at, Action,
    Machine, Pending, Response, RAM_SIZE,
};

verus! {

/// Every instruction that the decoder yields has its operands in range.
pub proof fn lemma_decoded_is_well_formed(word: u16)
    ensures
        decode_spec(word) matches Ok(instruction) ==> instruction.well_formed(),
{
}

/// The decoder accepts a word exactly if its leading nibble, and for the
/// families `5`, `8`, `9`, `E` and `F` its trailing nibble or byte, are
/// in the opcode table; any other word is handed back as the error.
pub proof fn lemma_decode_total(word: u16)
    ensures
        decode_spec(word) is Err <==> {
            let op = word as int / 0x1000;
            let n = word as int % 0x10;
            let kk = word as int % 0x100;
            ||| (op == 0x5 || op == 0x9) && n != 0
            ||| op == 0x8 && 0x8 <= n && n != 0xE
            ||| op == 0xE && kk != 0x9E && kk != 0xA1
            ||| op == 0xF && kk != 0x07 && kk != 0x0A && kk != 0x15 && kk != 0x18 && kk != 0x1E
                && kk != 0x29 && kk != 0x33 && kk != 0x55 && kk != 0x65
        },
        decode_spec(word) is Err ==> decode_spec(word) == Err::<Instruction, EngineError>(
            EngineError::DecodeError(word),
        ),
{
}

/// An instruction that fails leaves the state as it was.
#[verifier::rlimit(40)]
pub proof fn lemma_failure_changes_nothing(m: Machine, instruction: Instruction, random: u8)
    ensures
        execute_spec(m, instruction, random).1 is Err ==> execute_spec(m, instruction, random).0
            == m,
        cycle_spec(m, random).1 is Err ==> cycle_spec(m, random).0 == m,
{
}

/// Executing an instruction keeps a well-formed state well formed.
#[verifier::rlimit(40)]
pub proof fn lemma_execute_keeps_well_formed(m: Machine, instruction: Instruction, random: u8)
    requires
        m.well_formed(),
        m.pending is Ready,
        m.program_counter <= RAM_SIZE,
        instruction.well_formed(),
    ensures
        execute_spec(m, instruction, random).0.well_formed(),
{
    match instruction {
        Instruction::Drw(x, y, n) => {
            let i = m.address as int;
            if i + n <= RAM_SIZE {
                lemma_draw_rows_by_row(m.frame, m.memory.subrange(i, i + n), m.v(x), m.v(y));
            }
        },
        _ => {},
    }
}

/// A cycle keeps a well-formed state well formed.
#[verifier::rlimit(40)]
pub proof fn lemma_cycle_keeps_well_formed(m: Machine, random: u8)
    requires
        m.well_formed(),
    ensures
        cycle_spec(m, random).0.well_formed(),
{
    let pc = m.program_counter as int;
    if m.pending == Pending::Ready && pc + 1 < RAM_SIZE && word_at(m.memory, pc) != 0 {
        let word = word_at(m.memory, pc);
        lemma_decoded_is_well_formed(word);
        match decode_spec(word) {
            Ok(instruction) => {
                let advanced = Machine { program_counter: (pc + 2) as u16, ..m };
                lemma_execute_keeps_well_formed(advanced, instruction, random);
            },
            Err(_) => {},
        }
    }
}

/// An answer keeps a well-formed state well formed.
pub proof fn lemma_respond_keeps_well_formed(m: Machine, response: Response)
    requires
        m.well_formed(),
    ensures
        respond_spec(m, response).0.well_formed(),
{
}

/// A suspended engine does nothing but repeat its request until it is
/// answered, whatever the number of cycles.
pub proof fn lemma_suspended_cycle_waits(m: Machine, random: u8)
    requires
        m.pending != Pending::Ready,
    ensures
        cycle_spec(m, random).0 == m,
        cycle_spec(m, random).1 is Ok,
        cycle_spec(m, random).1 != Ok::<Action, EngineError>(Action::Continue),
        cycle_spec(m, random).1 != Ok::<Action, EngineError>(Action::Halt),
{
}

/// Whether an instruction sets the program counter itself.
pub open spec fn is_control_flow(instruction: Instruction) -> bool {
    match instruction {
        Instruction::Sys(_)
        | Instruction::Call(_)
        | Instruction::Ret
        | Instruction::JpAddr(_)
        | Instruction::JpV0Addr(_)
        | Instruction::SeVxByte(_, _)
        | Instruction::SneVxByte(_, _)
        | Instruction::SeVxVy(_, _)
        | Instruction::SneVxVy(_, _)
        | Instruction::Sknp(_) => true,
        _ => false,
    }
}

/// An instruction that is no jump, call, return or skip leaves the
/// program counter where the fetch put it: two bytes further.
#[verifier::rlimit(40)]
pub proof fn lemma_counter_moves_by_two(m: Machine, instruction: Instruction, random: u8)
    requires
        !is_control_flow(instruction),
    ensures
        execute_spec(m, instruction, random).0.program_counter == m.program_counter,
{
}

/// A skip moves the program counter by two more if its condition holds
/// and not at all if it does not.
pub proof fn lemma_skip_moves_by_two(m: Machine, x: u8, y: u8, kk: u8, random: u8)
    requires
        m.program_counter <= RAM_SIZE,
    ensures
        execute_spec(m, Instruction::SeVxByte(x, kk), random).0.program_counter
            == m.program_counter + if m.v(x) == kk { 2int } else { 0 },
        execute_spec(m, Instruction::SneVxByte(x, kk), random).0.program_counter
            == m.program_counter + if m.v(x) != kk { 2int } else { 0 },
        execute_spec(m, Instruction::SeVxVy(x, y), random).0.program_counter
            == m.program_counter + if m.v(x) == m.v(y) { 2int } else { 0 },
        execute_spec(m, Instruction::SneVxVy(x, y), random).0.program_counter
            == m.program_counter + if m.v(x) != m.v(y) { 2int } else { 0 },
{
}

/// A call followed by a return comes back to the instruction behind the
/// call and leaves the stack as it was.
pub proof fn lemma_call_then_return(m: Machine, addr: u16, random: u8)
    requires
        m.stack.len() < 16,
    ensures
        ({
            let called = execute_spec(m, Instruction::Call(addr), random).0;
            let returned = execute_spec(called, Instruction::Ret, random);
            returned.1 is Ok && returned.0 == m
        }),
{
    let called = execute_spec(m, Instruction::Call(addr), random).0;
    let returned = execute_spec(called, Instruction::Ret, random).0;
    assert(returned.stack =~= m.stack);
}

/// Eight-bit results and their flags, put together, are the exact results.
proof fn lemma_wrap_and_flag(a: u8, b: u8)
    ensures
        (a + b) % 256 + 256 * (if a + b > 255 { 1int } else { 0 }) == a + b,
        (a - b) % 256 - 256 * (if a >= b { 0int } else { 1 }) == a - b,
        2 * (b / 2) + (if b % 2 == 1 { 1int } else { 0 }) == b,
        (b * 2) % 256 + 256 * (if b >= 128 { 1int } else { 0 }) == 2 * b,
{
}

/// The sum and the carry of `ADD Vx, Vy` together are the exact sum, the
/// difference and the flag of `SUB Vx, Vy` the exact difference, and the
/// shifted value and the flag of `SHR` and `SHL` the exact half and double.
pub proof fn lemma_flags_account_for_wrap(m: Machine, x: u8, y: u8, random: u8)
    requires
        m.well_formed(),
        x < 15,
        y < 16,
    ensures
        ({
            let after = execute_spec(m, Instruction::AddVxVy(x, y), random).0;
            after.v(x) + 256 * after.v(15) == m.v(x) + m.v(y)
        }),
        ({
            let after = execute_spec(m, Instruction::Sub(x, y), random).0;
            after.v(x) - 256 * (1 - after.v(15)) == m.v(x) - m.v(y)
        }),
        ({
            let after = execute_spec(m, Instruction::Shr(x, y), random).0;
            2 * after.v(x) + after.v(15) == m.v(y)
        }),
        ({
            let after = execute_spec(m, Instruction::Shl(x, y), random).0;
            after.v(x) + 256 * after.v(15) == 2 * m.v(y)
        }),
{
    let a = m.v(x);
    let b = m.v(y);
    lemma_wrap_and_flag(a, b);
    let added = m.with_flagged(x, ((a + b) % 256) as u8, a + b > 255);
    assert(added.v(x) == (a + b) % 256 && added.v(15) == if a + b > 255 { 1int } else { 0 });
    let subtracted = m.with_flagged(x, ((a - b) % 256) as u8, a >= b);
    assert(subtracted.v(x) == (a - b) % 256 && subtracted.v(15) == if a >= b { 1int } else { 0 });
    let halved = m.with_flagged(x, b / 2, b % 2 == 1);
    assert(halved.v(x) == b / 2 && halved.v(15) == if b % 2 == 1 { 1int } else { 0 });
    let doubled = m.with_flagged(x, ((b * 2) % 256) as u8, b >= 128);
    assert(doubled.v(x) == (b * 2) % 256 && doubled.v(15) == if b >= 128 { 1int } else { 0 });
}

/// The hundreds, tens and ones of a byte are digits and spell the byte.
proof fn lemma_digits(v: u8)
    ensures
        v / 100 < 10,
        (v / 10) % 10 < 10,
        v % 10 < 10,
        100 * (v / 100) + 10 * ((v / 10) % 10) + v % 10 == v,
{
}

/// The three bytes that `LD B, Vx` stores are decimal digits, and they
/// spell the value of `Vx`, hundreds first.
pub proof fn lemma_decimal_digits(m: Machine, x: u8, random: u8)
    requires
        m.well_formed(),
        m.address + 2 < RAM_SIZE,
    ensures
        ({
            let after = execute_spec(m, Instruction::LdBVx(x), random).0;
            let i = m.address as int;
            &&& after.memory[i] < 10 && after.memory[i + 1] < 10 && after.memory[i + 2] < 10
            &&& 100 * after.memory[i] + 10 * after.memory[i + 1] + after.memory[i + 2] == m.v(x)
        }),
{
    let v = m.v(x);
    let i = m.address as int;
    lemma_digits(v);
    let stored = m.memory.update(i, v / 100).update(i + 1, (v / 10) % 10).update(i + 2, v % 10);
    assert(execute_spec(m, Instruction::LdBVx(x), random).0.memory == stored);
    assert(stored[i] == v / 100 && stored[i + 1] == (v / 10) % 10 && stored[i + 2] == v % 10);
}

/// Timers stop at zero: once as many periods have passed as the timer
/// held, it reads zero, and it never reads more than before.
pub proof fn lemma_timer_reaches_zero(timer: u8, periods: nat)
    ensures
        decayed(timer, periods) <= timer,
        periods >= timer ==> decayed(timer, periods) == 0,
        periods < timer ==> decayed(timer, periods) == timer - periods,
{
}

/// Letting periods pass one after the other is the same as letting them
/// pass at once.
pub proof fn lemma_ticks_add_up(m: Machine, first: nat, second: nat)
    ensures
        tick_spec(tick_spec(m, first).0, second).0 == tick_spec(m, first + second).0,
{
}

/// A timer tick touches nothing but the two timers.
pub proof fn lemma_tick_touches_timers_only(m: Machine, periods: nat)
    ensures
        tick_spec(m, periods).0 == (Machine {
            delay_timer: tick_spec(m, periods).0.delay_timer,
            sound_timer: tick_spec(m, periods).0.sound_timer,
            ..m
        }),
        m.well_formed() ==> tick_spec(m, periods).0.well_formed(),
{
}

/// No two words decode to the same instruction.
pub proof fn lemma_decode_injective(a: u16, b: u16)
    requires
        decode_spec(a) is Ok,
        decode_spec(a) == decode_spec(b),
    ensures
        a == b,
{
    lemma_word_from_nibbles(a);
    lemma_word_from_nibbles(b);
}

/// A word is made of its four nibbles, of its leading nibble and its low
/// twelve bits, and of its two leading nibbles and its low byte.
proof fn lemma_word_from_nibbles(word: u16)
    ensures
        word == (word as int / 0x1000) * 0x1000 + word as int % 0x1000,
        word == (word as int / 0x1000) * 0x1000 + ((word as int / 0x100) % 0x10) * 0x100
            + word as int % 0x100,
        word == (word as int / 0x1000) * 0x1000 + ((word as int / 0x100) % 0x10) * 0x100 + ((
        word as int / 0x10) % 0x10) * 0x10 + word as int % 0x10,
{
}

/// Any number of cycles keeps a well-formed state well formed.
pub proof fn lemma_run_keeps_well_formed(m: Machine, randoms: Seq<u8>)
    requires
        m.well_formed(),
    ensures
        run_spec(m, randoms).0.well_formed(),
    decreases randoms.len(),
{
    if randoms.len() > 0 {
        lemma_run_keeps_well_formed(m, randoms.drop_last());
        lemma_cycle_keeps_well_formed(run_spec(m, randoms.drop_last()).0, randoms.last());
    }
}

/// The same draw instruction executed twice gives back the display as it
/// was, where the coordinates are not kept in `VF`.
pub proof fn lemma_draw_twice(m: Machine, x: u8, y: u8, n: u8, random: u8)
    requires
        m.well_formed(),
        x < 15,
        y < 15,
        m.address + n <= RAM_SIZE,
    ensures
        ({
            let once = execute_spec(m, Instruction::Drw(x, y, n), random).0;
            let twice = execute_spec(once, Instruction::Drw(x, y, n), random);
            &&& twice.1 == Ok::<Action, EngineError>(Action::Redraw)
            &&& twice.0.frame == m.frame
        }),
{
    let i = m.address as int;
    lemma_draw_twice_restores(m.frame, m.memory.subrange(i, i + n), m.v(x), m.v(y));
}

} // verus!
