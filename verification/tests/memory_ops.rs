use chip8::{Action, EngineError, Interpreter};

fn rom(words: &[u16]) -> Vec<u8> {
    let mut bytes = Vec::new();
    for word in words {
        bytes.push((word >> 8) as u8);
        bytes.push((word & 0xFF) as u8);
    }
    bytes
}

fn run(words: &[u16]) -> Interpreter {
    let mut interpreter = Interpreter::new(rom(words));
    for _ in 0..words.len() {
        assert_eq!(interpreter.step_with(0), Ok(Action::Continue));
    }
    interpreter
}

/// Runs all of `words` but the last, which has to fail with `error` and
/// change nothing.
fn fails_at_the_end(words: &[u16], error: EngineError) {
    let mut interpreter = Interpreter::new(rom(words));
    for _ in 0..words.len() - 1 {
        assert_eq!(interpreter.step_with(0), Ok(Action::Continue));
    }
    let pc = interpreter.program_counter();
    let registers = *interpreter.registers();
    let memory = interpreter.memory().to_vec();
    let frame = *interpreter.frame_buffer();
    assert_eq!(interpreter.step_with(0), Err(error));
    assert_eq!(interpreter.program_counter(), pc);
    assert_eq!(*interpreter.registers(), registers);
    assert_eq!(interpreter.memory(), &memory[..]);
    assert_eq!(*interpreter.frame_buffer(), frame);
}

#[test]
fn font_and_program_are_loaded() {
    let interpreter = Interpreter::new(vec![0x12, 0x34, 0x56]);
    let memory = interpreter.memory();
    assert_eq!(memory.len(), 4096);
    assert_eq!(&memory[0..5], &[0xF0, 0x90, 0x90, 0x90, 0xF0]);
    assert_eq!(&memory[5..10], &[0x20, 0x60, 0x20, 0x20, 0x70]);
    assert_eq!(&memory[75..80], &[0xF0, 0x80, 0xF0, 0x80, 0x80]);
    assert!(memory[80..0x200].iter().all(|b| *b == 0));
    assert_eq!(&memory[0x200..0x203], &[0x12, 0x34, 0x56]);
    assert!(memory[0x203..].iter().all(|b| *b == 0));
    for digit in 0..16 {
        assert_eq!(&memory[digit * 5..digit * 5 + 5], &chip8::interpreter::DIGITS[digit]);
    }
}

#[test]
fn a_new_machine_is_at_rest() {
    let interpreter = Interpreter::new(Vec::new());
    assert_eq!(interpreter.program_counter(), 0x200);
    assert_eq!(*interpreter.registers(), [0u8; 16]);
    assert_eq!(interpreter.address_register(), 0);
    assert_eq!(interpreter.delay_timer(), 0);
    assert_eq!(interpreter.sound_timer(), 0);
    assert_eq!(interpreter.stack_depth(), 0);
    assert_eq!(*interpreter.frame_buffer(), [0u64; 32]);
    assert_eq!(interpreter.pending(), chip8::Pending::Ready);
}

#[test]
fn the_largest_program_fits() {
    let mut program = vec![0u8; 0x1000 - 0x200];
    program[0xDFF] = 0xAB;
    let interpreter = Interpreter::new(program);
    assert_eq!(interpreter.memory()[0xFFF], 0xAB);
    assert_eq!(interpreter.memory().len(), 4096);
}

#[test]
fn load_address_register() {
    let machine = run(&[0xA123]);
    assert_eq!(machine.address_register(), 0x123);
}

#[test]
fn add_to_address_register() {
    let machine = run(&[0xA123, 0x61FF, 0xF11E]);
    assert_eq!(machine.address_register(), 0x222);
    assert_eq!(machine.registers()[15], 0);
}

#[test]
fn address_register_wraps_at_sixteen_bits() {
    // Sixteen times 0xFFF and once 0x10 make 0x10000.
    let mut words = vec![0xA000, 0x61FF, 0x6210];
    for _ in 0..0x100 {
        words.push(0xF11E);
    }
    let machine = run(&words);
    assert_eq!(machine.address_register(), 0xFF00);
    let mut words = vec![0xAFFF, 0x61FF];
    for _ in 0..0xF1 {
        words.push(0xF11E);
    }
    let machine = run(&words);
    // 0xFFF + 241 * 255 = 65550 = 0x1000E.
    assert_eq!(machine.address_register(), 0x000E);
}

#[test]
fn glyph_address_is_five_times_the_digit() {
    let machine = run(&[0x6100, 0xF129]);
    assert_eq!(machine.address_register(), 0);
    let machine = run(&[0x610A, 0xF129]);
    assert_eq!(machine.address_register(), 50);
    let machine = run(&[0x610F, 0xF129]);
    assert_eq!(machine.address_register(), 75);
}

#[test]
fn glyph_address_wraps_as_a_byte() {
    let machine = run(&[0x6134, 0xF129]);
    // 5 * 0x34 = 260 = 256 + 4.
    assert_eq!(machine.address_register(), 4);
    let machine = run(&[0x61FF, 0xF129]);
    // 5 * 255 = 1275 = 4 * 256 + 251.
    assert_eq!(machine.address_register(), 251);
}

#[test]
fn decimal_digits_of_123() {
    let machine = run(&[0x617B, 0xA300, 0xF133]);
    assert_eq!(&machine.memory()[0x300..0x303], &[1, 2, 3]);
    assert_eq!(machine.address_register(), 0x300);
}

#[test]
fn decimal_digits_of_zero() {
    // The three bytes are written even where they are zero.
    let mut machine = Interpreter::new(rom(&[0xA208, 0xF133, 0x0000, 0x0000, 0xFFFF, 0xFFFF]));
    assert_eq!(&machine.memory()[0x208..0x20C], &[0xFF, 0xFF, 0xFF, 0xFF]);
    assert_eq!(machine.step_with(0), Ok(Action::Continue));
    assert_eq!(machine.step_with(0), Ok(Action::Continue));
    assert_eq!(&machine.memory()[0x208..0x20C], &[0, 0, 0, 0xFF]);
}

#[test]
fn decimal_digits_of_other_values() {
    let machine = run(&[0x61FF, 0xA300, 0xF133]);
    assert_eq!(&machine.memory()[0x300..0x303], &[2, 5, 5]);
    let machine = run(&[0x6107, 0xA300, 0xF133]);
    assert_eq!(&machine.memory()[0x300..0x303], &[0, 0, 7]);
    let machine = run(&[0x6164, 0xA300, 0xF133]);
    assert_eq!(&machine.memory()[0x300..0x303], &[1, 0, 0]);
    let machine = run(&[0x612A, 0xA300, 0xF133]);
    assert_eq!(&machine.memory()[0x300..0x303], &[0, 4, 2]);
}

#[test]
fn decimal_digits_at_the_top_of_memory() {
    let machine = run(&[0x617B, 0xAFFD, 0xF133]);
    assert_eq!(&machine.memory()[0xFFD..0x1000], &[1, 2, 3]);
    fails_at_the_end(&[0x617B, 0xAFFE, 0xF133], EngineError::OutOfBoundsAccess);
    fails_at_the_end(&[0x617B, 0xAFFF, 0xF133], EngineError::OutOfBoundsAccess);
}

#[test]
fn store_registers_up_to_vx() {
    let machine = run(&[0x6011, 0x6122, 0x6233, 0x6344, 0xA300, 0xF255]);
    assert_eq!(&machine.memory()[0x300..0x304], &[0x11, 0x22, 0x33, 0]);
    assert_eq!(machine.address_register(), 0x300);
}

#[test]
fn store_register_zero_alone() {
    let machine = run(&[0x60AB, 0x61CD, 0xA300, 0xF055]);
    assert_eq!(&machine.memory()[0x2FF..0x302], &[0, 0xAB, 0]);
}

#[test]
fn store_all_registers() {
    let mut words = Vec::new();
    for r in 0..16u16 {
        words.push(0x6000 | (r << 8) | (0xA0 + r));
    }
    words.push(0xAFF0);
    words.push(0xFF55);
    let machine = run(&words);
    for r in 0..16usize {
        assert_eq!(machine.memory()[0xFF0 + r], 0xA0 + r as u8);
    }
    words[16] = 0xAFF1;
    fails_at_the_end(&words, EngineError::OutOfBoundsAccess);
}

#[test]
fn load_registers_up_to_vx() {
    // Loads V0..=V2 from the first glyph, leaves V3 alone.
    let machine = run(&[0x6377, 0xA005, 0xF265]);
    assert_eq!(&machine.registers()[0..4], &[0x20, 0x60, 0x20, 0x77]);
    assert_eq!(machine.address_register(), 5);
}

#[test]
fn load_registers_out_of_bounds() {
    let machine = run(&[0xAFFF, 0xF065]);
    assert_eq!(machine.registers()[0], 0);
    fails_at_the_end(&[0xAFFF, 0xF165], EngineError::OutOfBoundsAccess);
    fails_at_the_end(&[0xAFF0, 0x61FF, 0xF11E, 0xF065], EngineError::OutOfBoundsAccess);
}

#[test]
fn store_then_load_round_trips() {
    let machine = run(&[
        0x6011, 0x6122, 0x6233, 0xA300, 0xF255, 0x6000, 0x6100, 0x6200, 0xF265,
    ]);
    assert_eq!(&machine.registers()[0..3], &[0x11, 0x22, 0x33]);
}

#[test]
fn dump_has_128_lines_of_64_digits() {
    let interpreter = Interpreter::new(vec![0xAB, 0x01, 0xFE]);
    let lines = interpreter.dump_memory();
    assert_eq!(lines.len(), 128);
    assert!(lines.iter().all(|line| line.len() == 64));
    assert_eq!(
        lines[0],
        "F0909090F02060202070F010F080F0F010F010F09090F01010F080F010F0F080"
    );
    assert_eq!(
        lines[2],
        "F0E0909090E0F080F080F0F080F0808000000000000000000000000000000000"
    );
    assert_eq!(lines[3], "0".repeat(64));
    assert_eq!(lines[16], format!("AB01FE{}", "0".repeat(58)));
    assert_eq!(lines[127], "0".repeat(64));
}

#[test]
fn dump_agrees_with_memory() {
    let interpreter = Interpreter::new((0..=255u8).collect());
    let lines = interpreter.dump_memory();
    let memory = interpreter.memory();
    for (k, line) in lines.iter().enumerate() {
        let mut expected = String::new();
        for byte in &memory[32 * k..32 * k + 32] {
            expected.push_str(&format!("{:02X}", byte));
        }
        assert_eq!(*line, expected);
    }
}
