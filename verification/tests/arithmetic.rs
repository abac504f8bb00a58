use chip8::{Action, Interpreter};

fn rom(words: &[u16]) -> Vec<u8> {
    let mut bytes = Vec::new();
    for word in words {
        bytes.push((word >> 8) as u8);
        bytes.push((word & 0xFF) as u8);
    }
    bytes
}

/// Runs `words` to the end and hands back the machine.
fn run(words: &[u16]) -> Interpreter {
    let mut interpreter = Interpreter::new(rom(words));
    for _ in 0..words.len() {
        assert_eq!(interpreter.step_with(0), Ok(Action::Continue));
    }
    assert_eq!(interpreter.step_with(0), Ok(Action::Halt));
    interpreter
}

/// Loads `V1 = a`, `V2 = b`, runs `8120 | op` and gives `(V1, VF)`.
fn binary(op: u16, a: u8, b: u8) -> (u8, u8) {
    let machine = run(&[0x6100 | a as u16, 0x6200 | b as u16, 0x8120 | op]);
    (machine.registers()[1], machine.registers()[15])
}

#[test]
fn load_byte_sets_the_register() {
    let machine = run(&[0x6A42]);
    assert_eq!(machine.registers()[0xA], 0x42);
    assert_eq!(machine.program_counter(), 0x202);
}

#[test]
fn add_byte_wraps_without_flag() {
    let machine = run(&[0x60FF, 0x7002]);
    assert_eq!(machine.registers()[0], 0x01);
    assert_eq!(machine.registers()[15], 0);
    let machine = run(&[0x6005, 0x7003]);
    assert_eq!(machine.registers()[0], 8);
}

#[test]
fn load_register_copies() {
    assert_eq!(binary(0x0, 0x11, 0x22), (0x22, 0));
}

#[test]
fn or_and_xor() {
    assert_eq!(binary(0x1, 0b1100, 0b1010), (0b1110, 0));
    assert_eq!(binary(0x2, 0b1100, 0b1010), (0b1000, 0));
    assert_eq!(binary(0x3, 0b1100, 0b1010), (0b0110, 0));
}

#[test]
fn add_registers_sets_carry() {
    assert_eq!(binary(0x4, 0xFF, 0x01), (0x00, 1));
    assert_eq!(binary(0x4, 0x01, 0x01), (0x02, 0));
    assert_eq!(binary(0x4, 0xFF, 0xFF), (0xFE, 1));
    assert_eq!(binary(0x4, 0x80, 0x7F), (0xFF, 0));
}

#[test]
fn sub_sets_no_borrow_flag() {
    assert_eq!(binary(0x5, 5, 3), (2, 1));
    assert_eq!(binary(0x5, 3, 5), (0xFE, 0));
    assert_eq!(binary(0x5, 7, 7), (0, 1));
}

#[test]
fn subn_subtracts_the_other_way() {
    assert_eq!(binary(0x7, 3, 5), (2, 1));
    assert_eq!(binary(0x7, 5, 3), (0xFE, 0));
    assert_eq!(binary(0x7, 7, 7), (0, 1));
}

#[test]
fn shr_shifts_vy_into_vx() {
    assert_eq!(binary(0x6, 0xAA, 0b0000_0011), (0b0000_0001, 1));
    assert_eq!(binary(0x6, 0xAA, 0b0000_0100), (0b0000_0010, 0));
    assert_eq!(binary(0x6, 0xAA, 0xFF), (0x7F, 1));
}

#[test]
fn shr_leaves_vy_alone() {
    let machine = run(&[0x6203, 0x8126]);
    assert_eq!(machine.registers()[2], 3);
}

#[test]
fn shl_shifts_vy_into_vx() {
    assert_eq!(binary(0xE, 0x55, 0b1000_0001), (0b0000_0010, 1));
    assert_eq!(binary(0xE, 0x55, 0b0100_0000), (0b1000_0000, 0));
    assert_eq!(binary(0xE, 0x55, 0xFF), (0xFE, 1));
}

#[test]
fn flag_wins_when_the_target_is_vf() {
    // VF = 0xFF + 0x01: the carry is written last.
    let machine = run(&[0x6FFF, 0x6101, 0x8F14]);
    assert_eq!(machine.registers()[15], 1);
    // VF = 1 - 1 would be 0; the flag says "no borrow".
    let machine = run(&[0x6F01, 0x6101, 0x8F15]);
    assert_eq!(machine.registers()[15], 1);
}

#[test]
fn random_is_masked_by_the_byte() {
    let mut interpreter = Interpreter::new(rom(&[0xC10F, 0xC2F0, 0xC300, 0xC4FF]));
    assert_eq!(interpreter.step_with(0xAB), Ok(Action::Continue));
    assert_eq!(interpreter.step_with(0xAB), Ok(Action::Continue));
    assert_eq!(interpreter.step_with(0xAB), Ok(Action::Continue));
    assert_eq!(interpreter.step_with(0xAB), Ok(Action::Continue));
    assert_eq!(interpreter.registers()[1], 0x0B);
    assert_eq!(interpreter.registers()[2], 0xA0);
    assert_eq!(interpreter.registers()[3], 0x00);
    assert_eq!(interpreter.registers()[4], 0xAB);
}

#[test]
fn drawn_random_bytes_stay_under_the_mask() {
    let mut seen = [false; 16];
    for _ in 0..400 {
        let mut interpreter = Interpreter::new(rom(&[0xC10F, 0xC200]));
        assert_eq!(interpreter.step(), Ok(Action::Continue));
        assert_eq!(interpreter.step(), Ok(Action::Continue));
        assert!(interpreter.registers()[1] < 16);
        assert_eq!(interpreter.registers()[2], 0);
        seen[interpreter.registers()[1] as usize] = true;
    }
    // Four hundred draws of a nibble do not all give the same value.
    assert!(seen.iter().filter(|s| **s).count() > 1);
}

#[test]
fn step_uses_no_random_byte_elsewhere() {
    let mut a = Interpreter::new(rom(&[0x6105, 0x7103, 0x8114]));
    let mut b = Interpreter::new(rom(&[0x6105, 0x7103, 0x8114]));
    for _ in 0..4 {
        assert_eq!(a.step(), b.step_with(0x5A));
    }
    assert_eq!(a.registers(), b.registers());
    assert_eq!(a.program_counter(), b.program_counter());
}
