use chip8::timing::{elapsed_periods, TIMER_PERIOD_NANOS};
use chip8::{Action, Interpreter};

fn rom(words: &[u16]) -> Vec<u8> {
    let mut bytes = Vec::new();
    for word in words {
        bytes.push((word >> 8) as u8);
        bytes.push((word & 0xFF) as u8);
    }
    bytes
}

#[test]
fn delay_timer_is_set_and_read() {
    let mut interpreter = Interpreter::new(rom(&[0x613C, 0xF115, 0xF207]));
    assert_eq!(interpreter.execute(3), Ok(Action::Continue));
    assert_eq!(interpreter.delay_timer(), 0x3C);
    assert_eq!(interpreter.registers()[2], 0x3C);
    assert_eq!(interpreter.sound_timer(), 0);
}

#[test]
fn delay_timer_decays_to_zero_and_stays() {
    let mut interpreter = Interpreter::new(rom(&[0x6102, 0xF115]));
    assert_eq!(interpreter.execute(2), Ok(Action::Continue));
    assert_eq!(interpreter.delay_timer(), 2);
    assert_eq!(interpreter.tick_timers(1), Action::Continue);
    assert_eq!(interpreter.delay_timer(), 1);
    assert_eq!(interpreter.tick_timers(1), Action::Continue);
    assert_eq!(interpreter.delay_timer(), 0);
    assert_eq!(interpreter.tick_timers(1), Action::Continue);
    assert_eq!(interpreter.delay_timer(), 0);
}

#[test]
fn several_periods_pass_at_once() {
    let mut interpreter = Interpreter::new(rom(&[0x610A, 0xF115]));
    assert_eq!(interpreter.execute(2), Ok(Action::Continue));
    interpreter.tick_timers(3);
    assert_eq!(interpreter.delay_timer(), 7);
    interpreter.tick_timers(0);
    assert_eq!(interpreter.delay_timer(), 7);
    interpreter.tick_timers(7);
    assert_eq!(interpreter.delay_timer(), 0);
}

#[test]
fn more_periods_than_the_timer_holds() {
    for periods in [2u64, 3, 255, 256, 1000, u64::MAX] {
        let mut interpreter = Interpreter::new(rom(&[0x6102, 0xF115]));
        assert_eq!(interpreter.execute(2), Ok(Action::Continue));
        interpreter.tick_timers(periods);
        assert_eq!(interpreter.delay_timer(), 0);
    }
    let mut interpreter = Interpreter::new(rom(&[0x61FF, 0xF115]));
    assert_eq!(interpreter.execute(2), Ok(Action::Continue));
    interpreter.tick_timers(254);
    assert_eq!(interpreter.delay_timer(), 1);
    interpreter.tick_timers(256);
    assert_eq!(interpreter.delay_timer(), 0);
}

#[test]
fn timers_are_independent() {
    let mut interpreter = Interpreter::new(rom(&[0x6105, 0x6202, 0xF115, 0xF218]));
    assert_eq!(interpreter.execute(3), Ok(Action::Continue));
    assert_eq!(interpreter.step_with(0), Ok(Action::Audio(true)));
    assert_eq!((interpreter.delay_timer(), interpreter.sound_timer()), (5, 2));
    assert_eq!(interpreter.tick_timers(1), Action::Continue);
    assert_eq!((interpreter.delay_timer(), interpreter.sound_timer()), (4, 1));
    assert_eq!(interpreter.tick_timers(1), Action::Audio(false));
    assert_eq!((interpreter.delay_timer(), interpreter.sound_timer()), (3, 0));
    assert_eq!(interpreter.tick_timers(1), Action::Continue);
    assert_eq!((interpreter.delay_timer(), interpreter.sound_timer()), (2, 0));
}

#[test]
fn tone_starts_when_the_sound_timer_leaves_zero() {
    let mut interpreter = Interpreter::new(rom(&[0x6103, 0xF118, 0x6104, 0xF118, 0x6100, 0xF118, 0xF118]));
    assert_eq!(interpreter.step_with(0), Ok(Action::Continue));
    assert_eq!(interpreter.step_with(0), Ok(Action::Audio(true)));
    assert_eq!(interpreter.step_with(0), Ok(Action::Continue));
    // Already playing: nothing to say.
    assert_eq!(interpreter.step_with(0), Ok(Action::Continue));
    assert_eq!(interpreter.sound_timer(), 4);
    assert_eq!(interpreter.step_with(0), Ok(Action::Continue));
    assert_eq!(interpreter.step_with(0), Ok(Action::Audio(false)));
    // Already silent.
    assert_eq!(interpreter.step_with(0), Ok(Action::Continue));
    assert_eq!(interpreter.sound_timer(), 0);
}

#[test]
fn ticks_touch_nothing_but_the_timers() {
    let mut interpreter = Interpreter::new(rom(&[0x6105, 0xF115, 0xA123]));
    assert_eq!(interpreter.execute(3), Ok(Action::Continue));
    let registers = *interpreter.registers();
    let memory = interpreter.memory().to_vec();
    interpreter.tick_timers(2);
    assert_eq!(*interpreter.registers(), registers);
    assert_eq!(interpreter.memory(), &memory[..]);
    assert_eq!(interpreter.program_counter(), 0x206);
    assert_eq!(interpreter.address_register(), 0x123);
    assert_eq!(interpreter.delay_timer(), 3);
}

#[test]
fn ticks_add_up() {
    let mut a = Interpreter::new(rom(&[0x6164, 0xF115, 0xF118]));
    let mut b = Interpreter::new(rom(&[0x6164, 0xF115, 0xF118]));
    a.execute(2).unwrap();
    b.execute(2).unwrap();
    a.step_with(0).unwrap();
    b.step_with(0).unwrap();
    a.tick_timers(30);
    a.tick_timers(50);
    b.tick_timers(80);
    assert_eq!(a.delay_timer(), 20);
    assert_eq!((a.delay_timer(), a.sound_timer()), (b.delay_timer(), b.sound_timer()));
}

#[test]
fn instructions_do_not_move_the_timers() {
    let mut interpreter = Interpreter::new(rom(&[0x6105, 0xF115, 0x7001, 0x7001, 0x7001]));
    assert_eq!(interpreter.execute(5), Ok(Action::Continue));
    assert_eq!(interpreter.delay_timer(), 5);
}

#[test]
fn time_is_split_into_whole_periods() {
    assert_eq!(TIMER_PERIOD_NANOS, 16_666_667);
    assert_eq!(elapsed_periods(0), (0, 0));
    assert_eq!(elapsed_periods(16_666_666), (0, 16_666_666));
    assert_eq!(elapsed_periods(16_666_667), (1, 0));
    assert_eq!(elapsed_periods(40_000_000), (2, 6_666_666));
    assert_eq!(elapsed_periods(1_000_000_000), (59, 16_666_647));
    let (periods, rest) = elapsed_periods(u64::MAX);
    assert_eq!(periods as u128 * 16_666_667 + rest as u128, u64::MAX as u128);
    assert!(rest < 16_666_667);
}
