use chip8::chip_8::Chip8;
use chip8::font::CHIP8_FONTSET;
use chip8::machine::Chip8Error;

fn boot(rom: &[u8]) -> Chip8 {
    let mut chip8 = Chip8::initialize();
    assert_eq!(chip8.load_game(rom), Ok(()));
    chip8
}

fn step_ok(chip8: &mut Chip8, cycles: usize) {
    for _ in 0..cycles {
        assert_eq!(chip8.cycle(), Ok(()));
    }
}

/// Runs `rom` to its end, one cycle per word, and returns the machine.
fn run_all(rom: &[u8]) -> Chip8 {
    let mut chip8 = boot(rom);
    step_ok(&mut chip8, rom.len() / 2);
    chip8
}

#[test]
fn load_immediate_overwrites_register() {
    for x in 0..16u8 {
        for kk in [0x00u8, 0x01, 0x7F, 0x80, 0xFF] {
            // 6xAA 6xkk
            let chip8 = run_all(&[0x60 | x, 0xAA, 0x60 | x, kk]);
            for other in 0..16usize {
                let expected = if other == x as usize { kk } else { 0 };
                assert_eq!(chip8.get_registers()[other], expected);
            }
            assert_eq!(chip8.get_pc(), 516);
        }
    }
}

#[test]
fn add_immediate_wraps_and_leaves_flag() {
    // 60FF 7002
    let chip8 = run_all(&[0x60, 0xFF, 0x70, 0x02]);
    assert_eq!(chip8.get_registers()[0], 0x01);
    assert_eq!(chip8.get_registers()[15], 0);
    // 6105 7103
    let chip8 = run_all(&[0x61, 0x05, 0x71, 0x03]);
    assert_eq!(chip8.get_registers()[1], 0x08);
}

#[test]
fn bitwise_instructions() {
    // 600C 610A 8011
    let chip8 = run_all(&[0x60, 0x0C, 0x61, 0x0A, 0x80, 0x11]);
    assert_eq!(chip8.get_registers()[0], 0x0E);
    // 600C 610A 8012
    let chip8 = run_all(&[0x60, 0x0C, 0x61, 0x0A, 0x80, 0x12]);
    assert_eq!(chip8.get_registers()[0], 0x08);
    // 600C 610A 8013
    let chip8 = run_all(&[0x60, 0x0C, 0x61, 0x0A, 0x80, 0x13]);
    assert_eq!(chip8.get_registers()[0], 0x06);
    assert_eq!(chip8.get_registers()[1], 0x0A);
    assert_eq!(chip8.get_registers()[15], 0);
}

#[test]
fn add_registers_sets_carry() {
    for (a, b, sum, carry) in [
        (0xF0u8, 0x20u8, 0x10u8, 1u8),
        (0x01, 0x02, 0x03, 0),
        (0xFF, 0x01, 0x00, 1),
        (0xFF, 0x00, 0xFF, 0),
        (0xFF, 0xFF, 0xFE, 1),
        (0x80, 0x7F, 0xFF, 0),
        (0x80, 0x80, 0x00, 1),
    ] {
        // 62aa 63bb 8234
        let chip8 = run_all(&[0x62, a, 0x63, b, 0x82, 0x34]);
        assert_eq!(chip8.get_registers()[2], sum);
        assert_eq!(chip8.get_registers()[3], b);
        assert_eq!(chip8.get_registers()[15], carry);
    }
}

#[test]
fn subtract_sets_flag_when_nothing_is_borrowed() {
    for (a, b, difference, flag) in [
        (0x05u8, 0x03u8, 0x02u8, 1u8),
        (0x03, 0x05, 0xFE, 0),
        (0x05, 0x05, 0x00, 1),
        (0x00, 0x01, 0xFF, 0),
        (0xFF, 0x00, 0xFF, 1),
        (0x00, 0xFF, 0x01, 0),
    ] {
        // 62aa 63bb 8235
        let chip8 = run_all(&[0x62, a, 0x63, b, 0x82, 0x35]);
        assert_eq!(chip8.get_registers()[2], difference);
        assert_eq!(chip8.get_registers()[3], b);
        assert_eq!(chip8.get_registers()[15], flag);
    }
}

#[test]
fn reverse_subtract_sets_flag_when_nothing_is_borrowed() {
    for (a, b, difference, flag) in [
        (0x03u8, 0x05u8, 0x02u8, 1u8),
        (0x05, 0x03, 0xFE, 0),
        (0x05, 0x05, 0x00, 1),
        (0x01, 0x00, 0xFF, 0),
    ] {
        // 62aa 63bb 8237
        let chip8 = run_all(&[0x62, a, 0x63, b, 0x82, 0x37]);
        assert_eq!(chip8.get_registers()[2], difference);
        assert_eq!(chip8.get_registers()[3], b);
        assert_eq!(chip8.get_registers()[15], flag);
    }
}

#[test]
fn shift_right_moves_low_bit_to_flag() {
    for (a, shifted, flag) in [(0x05u8, 0x02u8, 1u8), (0x04, 0x02, 0), (0xFF, 0x7F, 1), (0x00, 0x00, 0)] {
        // 62aa 8236
        let chip8 = run_all(&[0x62, a, 0x82, 0x36]);
        assert_eq!(chip8.get_registers()[2], shifted);
        assert_eq!(chip8.get_registers()[15], flag);
    }
}

#[test]
fn shift_left_moves_high_bit_to_flag() {
    for (a, shifted, flag) in [(0x81u8, 0x02u8, 1u8), (0x41, 0x82, 0), (0xFF, 0xFE, 1), (0x00, 0x00, 0)] {
        // 62aa 823E
        let chip8 = run_all(&[0x62, a, 0x82, 0x3E]);
        assert_eq!(chip8.get_registers()[2], shifted);
        assert_eq!(chip8.get_registers()[15], flag);
    }
}

#[test]
fn flag_register_as_destination_keeps_the_flag() {
    // 6FF0 6120 8F14: the sum 0x110 overflows, VF holds the carry.
    let chip8 = run_all(&[0x6F, 0xF0, 0x61, 0x20, 0x8F, 0x14]);
    assert_eq!(chip8.get_registers()[15], 1);
    // 6F01 6102 8F14: no carry.
    let chip8 = run_all(&[0x6F, 0x01, 0x61, 0x02, 0x8F, 0x14]);
    assert_eq!(chip8.get_registers()[15], 0);
    // 6F03 6105 8F15: 3 - 5 borrows.
    let chip8 = run_all(&[0x6F, 0x03, 0x61, 0x05, 0x8F, 0x15]);
    assert_eq!(chip8.get_registers()[15], 0);
    // 6F05 6103 8F17: 3 - 5 borrows.
    let chip8 = run_all(&[0x6F, 0x05, 0x61, 0x03, 0x8F, 0x17]);
    assert_eq!(chip8.get_registers()[15], 0);
}

#[test]
fn flag_register_as_shift_operand() {
    // 6F03 8F06: VF becomes the low bit 1, which is then halved.
    let chip8 = run_all(&[0x6F, 0x03, 0x8F, 0x06]);
    assert_eq!(chip8.get_registers()[15], 0);
    // 6F81 8F0E: VF becomes the high bit 1, which is then doubled.
    let chip8 = run_all(&[0x6F, 0x81, 0x8F, 0x0E]);
    assert_eq!(chip8.get_registers()[15], 2);
}

#[test]
fn flag_register_as_source_is_read_before_it_is_written() {
    // 6001 6FFF 80F4: V0 = 1 + 255 = 0 with carry.
    let chip8 = run_all(&[0x60, 0x01, 0x6F, 0xFF, 0x80, 0xF4]);
    assert_eq!(chip8.get_registers()[0], 0);
    assert_eq!(chip8.get_registers()[15], 1);
}

#[test]
fn skip_if_equal_to_literal() {
    // 6005 3005
    let chip8 = run_all(&[0x60, 0x05, 0x30, 0x05]);
    assert_eq!(chip8.get_pc(), 512 + 2 + 4);
    // 6005 3006
    let chip8 = run_all(&[0x60, 0x05, 0x30, 0x06]);
    assert_eq!(chip8.get_pc(), 512 + 2 + 2);
}

#[test]
fn skip_if_not_equal_to_literal() {
    // 6005 4006
    let chip8 = run_all(&[0x60, 0x05, 0x40, 0x06]);
    assert_eq!(chip8.get_pc(), 512 + 2 + 4);
    // 6005 4005
    let chip8 = run_all(&[0x60, 0x05, 0x40, 0x05]);
    assert_eq!(chip8.get_pc(), 512 + 2 + 2);
}

#[test]
fn skip_if_registers_equal() {
    // 6107 6207 5120
    let chip8 = run_all(&[0x61, 0x07, 0x62, 0x07, 0x51, 0x20]);
    assert_eq!(chip8.get_pc(), 512 + 4 + 4);
    // 6107 6208 5120
    let chip8 = run_all(&[0x61, 0x07, 0x62, 0x08, 0x51, 0x20]);
    assert_eq!(chip8.get_pc(), 512 + 4 + 2);
    // 6107 5120: V2 is still zero.
    let chip8 = run_all(&[0x61, 0x07, 0x51, 0x20]);
    assert_eq!(chip8.get_pc(), 512 + 2 + 2);
}

#[test]
fn skip_if_registers_differ() {
    // 6107 6208 9120
    let chip8 = run_all(&[0x61, 0x07, 0x62, 0x08, 0x91, 0x20]);
    assert_eq!(chip8.get_pc(), 512 + 4 + 4);
    // 6107 6207 9120
    let chip8 = run_all(&[0x61, 0x07, 0x62, 0x07, 0x91, 0x20]);
    assert_eq!(chip8.get_pc(), 512 + 4 + 2);
}

#[test]
fn skipped_instruction_is_not_run() {
    // 3000 6111 6222: V0 == 0, so 6111 is skipped.
    let mut chip8 = boot(&[0x30, 0x00, 0x61, 0x11, 0x62, 0x22]);
    step_ok(&mut chip8, 2);
    assert_eq!(chip8.get_registers()[1], 0);
    assert_eq!(chip8.get_registers()[2], 0x22);
    assert_eq!(chip8.get_pc(), 518);
}

#[test]
fn jump_sets_program_counter() {
    let chip8 = run_all(&[0x1A, 0xBC]);
    assert_eq!(chip8.get_pc(), 0xABC);
    assert_eq!(chip8.get_stack_depth(), 0);
}

#[test]
fn jump_with_offset_adds_v0() {
    // 6010 B300
    let chip8 = run_all(&[0x60, 0x10, 0xB3, 0x00]);
    assert_eq!(chip8.get_pc(), 0x310);
    // 60FF BFFF: the sum does not wrap at twelve bits.
    let chip8 = run_all(&[0x60, 0xFF, 0xBF, 0xFF]);
    assert_eq!(chip8.get_pc(), 0x10FE);
}

#[test]
fn call_then_return_comes_back_after_the_call() {
    // 0x200: 2206   0x202: 6111   0x204: 0000   0x206: 00EE
    let mut chip8 = boot(&[0x22, 0x06, 0x61, 0x11, 0x00, 0x00, 0x00, 0xEE]);
    step_ok(&mut chip8, 1);
    assert_eq!(chip8.get_pc(), 0x206);
    assert_eq!(chip8.get_stack_depth(), 1);
    step_ok(&mut chip8, 1);
    assert_eq!(chip8.get_pc(), 0x202);
    assert_eq!(chip8.get_stack_depth(), 0);
    step_ok(&mut chip8, 1);
    assert_eq!(chip8.get_registers()[1], 0x11);
}

#[test]
fn nested_calls_return_in_reverse_order() {
    // 0x200: 2204   0x202: 1202   0x204: 2208   0x206: 00EE   0x208: 00EE
    let mut chip8 = boot(&[0x22, 0x04, 0x12, 0x02, 0x22, 0x08, 0x00, 0xEE, 0x00, 0xEE]);
    step_ok(&mut chip8, 2);
    assert_eq!(chip8.get_pc(), 0x208);
    assert_eq!(chip8.get_stack_depth(), 2);
    step_ok(&mut chip8, 1);
    assert_eq!(chip8.get_pc(), 0x206);
    assert_eq!(chip8.get_stack_depth(), 1);
    step_ok(&mut chip8, 1);
    assert_eq!(chip8.get_pc(), 0x202);
    assert_eq!(chip8.get_stack_depth(), 0);
}

#[test]
fn seventeenth_call_overflows_the_stack() {
    // 2200: call self.
    let mut chip8 = boot(&[0x22, 0x00]);
    for depth in 1..=16usize {
        assert_eq!(chip8.cycle(), Ok(()));
        assert_eq!(chip8.get_stack_depth(), depth);
        assert_eq!(chip8.get_pc(), 0x200);
    }
    assert_eq!(chip8.cycle(), Err(Chip8Error::StackOverflow));
    assert_eq!(chip8.get_stack_depth(), 16);
    assert_eq!(chip8.get_pc(), 0x202);
    assert_eq!(chip8.get_opcode(), 0x2200);
}

#[test]
fn return_with_empty_stack_underflows() {
    let mut chip8 = boot(&[0x00, 0xEE]);
    assert_eq!(chip8.cycle(), Err(Chip8Error::StackUnderflow));
    assert_eq!(chip8.get_stack_depth(), 0);
    assert_eq!(chip8.get_pc(), 0x202);
    assert_eq!(chip8.get_opcode(), 0x00EE);
}

#[test]
fn load_index_sets_i() {
    let chip8 = run_all(&[0xA1, 0x23]);
    assert_eq!(chip8.get_index(), 0x123);
    let chip8 = run_all(&[0xAF, 0xFF]);
    assert_eq!(chip8.get_index(), 0xFFF);
}

#[test]
fn add_index_adds_register() {
    // A0FF 6001 F01E
    let chip8 = run_all(&[0xA0, 0xFF, 0x60, 0x01, 0xF0, 0x1E]);
    assert_eq!(chip8.get_index(), 0x100);
    assert_eq!(chip8.get_registers()[15], 0);
    // AFFF 60FF F01E: the sum leaves the twelve bits of an address.
    let chip8 = run_all(&[0xAF, 0xFF, 0x60, 0xFF, 0xF0, 0x1E]);
    assert_eq!(chip8.get_index(), 0x10FE);
    assert_eq!(chip8.get_registers()[15], 0);
}

#[test]
fn add_index_wraps_at_sixteen_bits() {
    // 0x200: AFFF   0x202: 60FF   0x204: F01E   0x206: 1204
    let mut chip8 = boot(&[0xAF, 0xFF, 0x60, 0xFF, 0xF0, 0x1E, 0x12, 0x04]);
    step_ok(&mut chip8, 2);
    for _ in 0..240 {
        step_ok(&mut chip8, 2);
    }
    assert_eq!(chip8.get_index(), 4095 + 240 * 255);
    step_ok(&mut chip8, 1);
    assert_eq!(chip8.get_index() as u32, 4095 + 241 * 255 - 65536);
    assert_eq!(chip8.get_registers()[15], 0);
}

#[test]
fn load_glyph_points_at_the_font() {
    // 600A F029
    let chip8 = run_all(&[0x60, 0x0A, 0xF0, 0x29]);
    assert_eq!(chip8.get_index(), 50);
    let at = chip8.get_index() as usize;
    assert_eq!(&chip8.get_memory()[at..at + 5], &[0xF0, 0x90, 0xF0, 0x90, 0x90]);
    for digit in 0..16u8 {
        // 63dd F329
        let chip8 = run_all(&[0x63, digit, 0xF3, 0x29]);
        let at = chip8.get_index() as usize;
        assert_eq!(at, 5 * digit as usize);
        assert_eq!(&chip8.get_memory()[at..at + 5], &CHIP8_FONTSET[at..at + 5]);
    }
    // 60FF F029: five times the whole register.
    let chip8 = run_all(&[0x60, 0xFF, 0xF0, 0x29]);
    assert_eq!(chip8.get_index(), 1275);
}

#[test]
fn store_bcd_writes_hundreds_tens_ones() {
    for (value, digits) in [(254u8, [2u8, 5, 4]), (7, [0, 0, 7]), (0, [0, 0, 0]), (255, [2, 5, 5]), (100, [1, 0, 0]), (99, [0, 9, 9])] {
        // 64vv A300 F433
        let chip8 = run_all(&[0x64, value, 0xA3, 0x00, 0xF4, 0x33]);
        assert_eq!(&chip8.get_memory()[0x300..0x303], &digits);
        assert_eq!(chip8.get_memory()[0x2FF], 0);
        assert_eq!(chip8.get_memory()[0x303], 0);
        assert_eq!(chip8.get_index(), 0x300);
    }
}

#[test]
fn store_registers_writes_v0_to_vx() {
    // 6011 6122 6233 6344 A300 F255
    let chip8 = run_all(&[0x60, 0x11, 0x61, 0x22, 0x62, 0x33, 0x63, 0x44, 0xA3, 0x00, 0xF2, 0x55]);
    assert_eq!(&chip8.get_memory()[0x300..0x304], &[0x11, 0x22, 0x33, 0x00]);
    assert_eq!(chip8.get_memory()[0x2FF], 0);
    assert_eq!(chip8.get_index(), 0x300);
    assert_eq!(&chip8.get_registers()[..4], &[0x11, 0x22, 0x33, 0x44]);
}

#[test]
fn load_registers_reads_v0_to_vx() {
    // 0x200: A208   0x202: 6399   0x204: F265   0x206: 0000   0x208: 0A 0B 0C 0D
    let mut chip8 = boot(&[0xA2, 0x08, 0x63, 0x99, 0xF2, 0x65, 0x00, 0x00, 0x0A, 0x0B, 0x0C, 0x0D]);
    step_ok(&mut chip8, 3);
    assert_eq!(&chip8.get_registers()[..5], &[0x0A, 0x0B, 0x0C, 0x99, 0x00]);
    assert_eq!(chip8.get_index(), 0x208);
}

#[test]
fn store_and_load_all_registers() {
    let mut rom: Vec<u8> = Vec::new();
    for x in 0..16u8 {
        rom.extend_from_slice(&[0x60 | x, 0x10 + x]);
    }
    // A400 FF55, then zero V0..VF, then FF65.
    rom.extend_from_slice(&[0xA4, 0x00, 0xFF, 0x55]);
    for x in 0..16u8 {
        rom.extend_from_slice(&[0x60 | x, 0x00]);
    }
    rom.extend_from_slice(&[0xFF, 0x65]);
    let chip8 = run_all(&rom);
    let expected: Vec<u8> = (0..16u8).map(|x| 0x10 + x).collect();
    assert_eq!(&chip8.get_memory()[0x400..0x410], &expected[..]);
    assert_eq!(chip8.get_registers(), &expected[..]);
}

#[test]
fn memory_instructions_stop_at_the_end_of_memory() {
    // AFFE F033: the ones digit would fall on address 4096.
    let mut chip8 = boot(&[0xAF, 0xFE, 0xF0, 0x33]);
    step_ok(&mut chip8, 1);
    assert_eq!(chip8.cycle(), Err(Chip8Error::MemoryOutOfBounds));
    assert_eq!(chip8.get_pc(), 516);
    assert_eq!(chip8.get_opcode(), 0xF033);
    assert!(chip8.get_memory()[516..].iter().all(|byte| *byte == 0));
    // AFFD 60EA F033: the digits of 234 fill the last three bytes.
    let chip8 = run_all(&[0xAF, 0xFD, 0x60, 0xEA, 0xF0, 0x33]);
    assert_eq!(&chip8.get_memory()[4093..], &[2, 3, 4]);
    // AFFF F155: V1 would fall on address 4096.
    let mut chip8 = boot(&[0xAF, 0xFF, 0xF1, 0x55]);
    step_ok(&mut chip8, 1);
    assert_eq!(chip8.cycle(), Err(Chip8Error::MemoryOutOfBounds));
    // AFFF 6077 F055: V0 goes to address 4095.
    let chip8 = run_all(&[0xAF, 0xFF, 0x60, 0x77, 0xF0, 0x55]);
    assert_eq!(chip8.get_memory()[4095], 0x77);
    // AFFF F165: V1 would come from address 4096.
    let mut chip8 = boot(&[0xAF, 0xFF, 0xF1, 0x65]);
    step_ok(&mut chip8, 1);
    assert_eq!(chip8.cycle(), Err(Chip8Error::MemoryOutOfBounds));
    assert_eq!(chip8.get_registers(), &[0u8; 16][..]);
    // AFFF 6077 F055 6000 F065
    let chip8 = run_all(&[0xAF, 0xFF, 0x60, 0x77, 0xF0, 0x55, 0x60, 0x00, 0xF0, 0x65]);
    assert_eq!(chip8.get_registers()[0], 0x77);
}

#[test]
fn delay_timer_is_written_and_read() {
    // 6042 F015 F107
    let chip8 = run_all(&[0x60, 0x42, 0xF0, 0x15, 0xF1, 0x07]);
    assert_eq!(chip8.get_delay_timer(), 0x42);
    assert_eq!(chip8.get_registers()[1], 0x42);
    assert_eq!(chip8.get_sound_timer(), 0);
}

#[test]
fn delay_timer_read_sees_ticks() {
    // 6003 F015 F107
    let mut chip8 = boot(&[0x60, 0x03, 0xF0, 0x15, 0xF1, 0x07]);
    step_ok(&mut chip8, 2);
    chip8.cycle_timers();
    step_ok(&mut chip8, 1);
    assert_eq!(chip8.get_registers()[1], 2);
}

#[test]
fn sound_timer_is_written() {
    // 6042 F018
    let chip8 = run_all(&[0x60, 0x42, 0xF0, 0x18]);
    assert_eq!(chip8.get_sound_timer(), 0x42);
    assert_eq!(chip8.get_delay_timer(), 0);
}

#[test]
fn skip_if_key_down() {
    // 6005 E09E
    let mut chip8 = boot(&[0x60, 0x05, 0xE0, 0x9E]);
    chip8.keypress(5, true);
    step_ok(&mut chip8, 2);
    assert_eq!(chip8.get_pc(), 512 + 2 + 4);
    let mut chip8 = boot(&[0x60, 0x05, 0xE0, 0x9E]);
    chip8.keypress(4, true);
    step_ok(&mut chip8, 2);
    assert_eq!(chip8.get_pc(), 512 + 2 + 2);
}

#[test]
fn skip_if_key_up() {
    // 6005 E0A1
    let mut chip8 = boot(&[0x60, 0x05, 0xE0, 0xA1]);
    chip8.keypress(4, true);
    step_ok(&mut chip8, 2);
    assert_eq!(chip8.get_pc(), 512 + 2 + 4);
    let mut chip8 = boot(&[0x60, 0x05, 0xE0, 0xA1]);
    chip8.keypress(5, true);
    step_ok(&mut chip8, 2);
    assert_eq!(chip8.get_pc(), 512 + 2 + 2);
}

#[test]
fn key_instructions_refuse_keys_above_fifteen() {
    // 6010 E09E
    let mut chip8 = boot(&[0x60, 0x10, 0xE0, 0x9E]);
    step_ok(&mut chip8, 1);
    assert_eq!(chip8.cycle(), Err(Chip8Error::KeyOutOfRange));
    assert_eq!(chip8.get_pc(), 516);
    // 60FF E0A1
    let mut chip8 = boot(&[0x60, 0xFF, 0xE0, 0xA1]);
    step_ok(&mut chip8, 1);
    assert_eq!(chip8.cycle(), Err(Chip8Error::KeyOutOfRange));
    assert_eq!(chip8.get_pc(), 516);
    // 600F E09E: key 15 is the last one.
    let mut chip8 = boot(&[0x60, 0x0F, 0xE0, 0x9E]);
    chip8.keypress(15, true);
    step_ok(&mut chip8, 2);
    assert_eq!(chip8.get_pc(), 518);
}

#[test]
fn wait_key_holds_the_program_until_a_key_is_down() {
    // F30A 6111
    let mut chip8 = boot(&[0xF3, 0x0A, 0x61, 0x11]);
    for _ in 0..5 {
        assert_eq!(chip8.cycle(), Ok(()));
        assert_eq!(chip8.get_pc(), 512);
        assert_eq!(chip8.get_opcode(), 0xF30A);
        assert_eq!(chip8.get_registers(), &[0u8; 16][..]);
    }
    chip8.keypress(0xC, true);
    chip8.keypress(0x4, true);
    chip8.keypress(0xE, true);
    assert_eq!(chip8.cycle(), Ok(()));
    assert_eq!(chip8.get_pc(), 514);
    assert_eq!(chip8.get_registers()[3], 0x4);
    assert_eq!(chip8.cycle(), Ok(()));
    assert_eq!(chip8.get_registers()[1], 0x11);
}

#[test]
fn wait_key_sees_key_zero() {
    // 63FF F30A
    let mut chip8 = boot(&[0x63, 0xFF, 0xF3, 0x0A]);
    chip8.keypress(0, true);
    step_ok(&mut chip8, 2);
    assert_eq!(chip8.get_registers()[3], 0);
    assert_eq!(chip8.get_pc(), 516);
}

#[test]
fn random_masks_the_byte_drawn() {
    // C50F
    let mut chip8 = boot(&[0xC5, 0x0F]);
    assert_eq!(chip8.cycle_with(0xAB), Ok(()));
    assert_eq!(chip8.get_registers()[5], 0x0B);
    assert_eq!(chip8.get_pc(), 514);
    // C5F0
    let mut chip8 = boot(&[0xC5, 0xF0]);
    assert_eq!(chip8.cycle_with(0xAB), Ok(()));
    assert_eq!(chip8.get_registers()[5], 0xA0);
    // C5FF
    let mut chip8 = boot(&[0xC5, 0xFF]);
    assert_eq!(chip8.cycle_with(0xFF), Ok(()));
    assert_eq!(chip8.get_registers()[5], 0xFF);
}

#[test]
fn random_byte_is_ignored_by_other_instructions() {
    for random in [0x00u8, 0x5A, 0xFF] {
        // 6A42 7A01
        let mut chip8 = boot(&[0x6A, 0x42, 0x7A, 0x01]);
        assert_eq!(chip8.cycle_with(random), Ok(()));
        assert_eq!(chip8.cycle_with(random), Ok(()));
        assert_eq!(chip8.get_registers()[0xA], 0x43);
        assert_eq!(chip8.get_pc(), 516);
    }
}

#[test]
fn random_draws_stay_under_the_mask() {
    // 0x200: C007   0x202: 1200
    let mut chip8 = boot(&[0xC0, 0x07, 0x12, 0x00]);
    for _ in 0..200 {
        step_ok(&mut chip8, 1);
        assert!(chip8.get_registers()[0] <= 7);
        step_ok(&mut chip8, 1);
    }
    // C100: nothing passes the mask.
    let mut chip8 = boot(&[0x61, 0xFF, 0xC1, 0x00]);
    step_ok(&mut chip8, 2);
    assert_eq!(chip8.get_registers()[1], 0);
}

#[test]
fn random_draws_vary() {
    // 0x200: C0FF   0x202: 1200
    let mut chip8 = boot(&[0xC0, 0xFF, 0x12, 0x00]);
    let mut seen = [false; 256];
    for _ in 0..4096 {
        step_ok(&mut chip8, 1);
        seen[chip8.get_registers()[0] as usize] = true;
        step_ok(&mut chip8, 1);
    }
    let distinct = seen.iter().filter(|s| **s).count();
    assert!(distinct > 128, "only {} distinct bytes in 4096 draws", distinct);
    assert!(seen[128..].iter().any(|s| *s));
    assert!(seen[..128].iter().any(|s| *s));
}
