use chip8::chip8::{Chip8, EmulatorState};
use chip8::cpu::EXECUTION_INDEX;
use chip8::display::{DISPLAY_SIZE, DISPLAY_WIDTH};
use chip8::ram::FONTSET_START_ADDRESS;

fn lit_pixels(chip8: &Chip8) -> Vec<usize> {
    let buffer = chip8.get_video_buffer();
    (0..buffer.len()).filter(|&i| buffer[i] != 0).collect()
}

#[test]
fn load_immediate_every_register() {
    let mut chip8 = Chip8::init();
    for x in 0..16u16 {
        let kk = (x as u8).wrapping_mul(17).wrapping_add(3);
        chip8.exec_instructions(0x6000 | (x << 8) | kk as u16);
        assert_eq!(chip8.cpu.get_vreg_value(x as u8), kk);
    }
}

#[test]
fn add_with_carry_sets_flag() {
    let mut chip8 = Chip8::init();
    chip8.cpu.set_vreg_value(3, 200);
    chip8.cpu.set_vreg_value(7, 100);
    chip8.exec_instructions(0x8374);
    assert_eq!(chip8.cpu.get_vreg_value(3), 44);
    assert_eq!(chip8.cpu.get_vreg_value(0xF), 1);

    let mut chip8 = Chip8::init();
    chip8.cpu.set_vreg_value(3, 20);
    chip8.cpu.set_vreg_value(7, 100);
    chip8.exec_instructions(0x8374);
    assert_eq!(chip8.cpu.get_vreg_value(3), 120);
    assert_eq!(chip8.cpu.get_vreg_value(0xF), 0);
}

#[test]
fn subtract_with_borrow_flag() {
    let mut chip8 = Chip8::init();
    chip8.cpu.set_vreg_value(3, 10);
    chip8.cpu.set_vreg_value(7, 8);
    chip8.exec_instructions(0x8375);
    assert_eq!(chip8.cpu.get_vreg_value(3), 2);
    assert_eq!(chip8.cpu.get_vreg_value(0xF), 1);

    let mut chip8 = Chip8::init();
    chip8.cpu.set_vreg_value(3, 8);
    chip8.cpu.set_vreg_value(7, 10);
    chip8.exec_instructions(0x8375);
    assert_eq!(chip8.cpu.get_vreg_value(3), 254);
    assert_eq!(chip8.cpu.get_vreg_value(0xF), 0);

    // equal operands: no borrow
    let mut chip8 = Chip8::init();
    chip8.cpu.set_vreg_value(3, 9);
    chip8.cpu.set_vreg_value(7, 9);
    chip8.exec_instructions(0x8375);
    assert_eq!(chip8.cpu.get_vreg_value(3), 0);
    assert_eq!(chip8.cpu.get_vreg_value(0xF), 1);
}

#[test]
fn flag_write_wins_over_result_in_flag_register() {
    // 8F04: VF := VF + V0 with carry; the carry is written last
    let mut chip8 = Chip8::init();
    chip8.cpu.set_vreg_value(0xF, 200);
    chip8.cpu.set_vreg_value(0, 100);
    chip8.exec_instructions(0x8F04);
    assert_eq!(chip8.cpu.get_vreg_value(0xF), 1);

    // 8F06: VF := VF >> 1, then the shifted-out bit
    let mut chip8 = Chip8::init();
    chip8.cpu.set_vreg_value(0xF, 0b10);
    chip8.exec_instructions(0x8F06);
    assert_eq!(chip8.cpu.get_vreg_value(0xF), 0);

    // 8F0E: VF := VF << 1, then the top bit
    let mut chip8 = Chip8::init();
    chip8.cpu.set_vreg_value(0xF, 0x81);
    chip8.exec_instructions(0x8F0E);
    assert_eq!(chip8.cpu.get_vreg_value(0xF), 1);
}

#[test]
fn call_then_return_round_trip() {
    let mut chip8 = Chip8::init();
    chip8.cpu.update_pc(23);
    chip8.exec_instructions(0x2300);
    assert_eq!(chip8.cpu.get_sp(), 1);
    assert_eq!(chip8.cpu.get_pc(), 0x300);
    assert_eq!(chip8.cpu.get_stack_value(1), 23);
    chip8.exec_instructions(0x00EE);
    assert_eq!(chip8.cpu.get_pc(), 23);
    assert_eq!(chip8.cpu.get_sp(), 0);
}

#[test]
fn call_with_full_stack_pushes_nothing() {
    let mut chip8 = Chip8::init();
    for k in 0..15u16 {
        chip8.cpu.update_pc(0x400 + 2 * k);
        chip8.exec_instructions(0x2300);
    }
    assert_eq!(chip8.cpu.get_sp(), 15);
    assert_eq!(chip8.cpu.get_stack_value(15), 0x400 + 28);
    chip8.cpu.update_pc(0x500);
    chip8.exec_instructions(0x2600);
    assert_eq!(chip8.cpu.get_sp(), 15);
    assert_eq!(chip8.cpu.get_pc(), 0x600);
    assert_eq!(chip8.cpu.get_stack_value(15), 0x400 + 28);
}

#[test]
fn return_with_empty_stack_stays_at_zero() {
    let mut chip8 = Chip8::init();
    chip8.exec_instructions(0x00EE);
    assert_eq!(chip8.cpu.get_sp(), 0);
    assert_eq!(chip8.cpu.get_pc(), 0);
}

#[test]
fn skip_if_equal_after_fetch() {
    let mut chip8 = Chip8::init();
    // 3A42 at 0x200, then 5AB0 at 0x202
    chip8.load_rom(vec![0x3A, 0x42, 0x5A, 0xB0]);
    chip8.cpu.set_vreg_value(0xA, 0x42);
    chip8.run();
    assert_eq!(chip8.cpu.get_pc(), 0x204);

    let mut chip8 = Chip8::init();
    chip8.load_rom(vec![0x3A, 0x42]);
    chip8.cpu.set_vreg_value(0xA, 0x41);
    chip8.run();
    assert_eq!(chip8.cpu.get_pc(), 0x202);

    let mut chip8 = Chip8::init();
    chip8.load_rom(vec![0x5A, 0xB0]);
    chip8.cpu.set_vreg_value(0xA, 9);
    chip8.cpu.set_vreg_value(0xB, 9);
    chip8.run();
    assert_eq!(chip8.cpu.get_pc(), 0x204);
}

#[test]
fn draw_sets_flag_when_a_pixel_is_lit() {
    let mut chip8 = Chip8::init();
    // one row, 0b1100_0000, at (2, 3)
    chip8.bus.ram_write_byte(0x300, 0xC0);
    chip8.cpu.set_i_reg_value(0x300);
    chip8.cpu.set_vreg_value(0, 2);
    chip8.cpu.set_vreg_value(1, 3);
    chip8.exec_instructions(0xD011);
    assert_eq!(lit_pixels(&chip8), vec![2 + 3 * DISPLAY_WIDTH, 3 + 3 * DISPLAY_WIDTH]);
    assert_eq!(chip8.cpu.get_vreg_value(0xF), 1);
}

#[test]
fn draw_blank_sprite_on_blank_screen_leaves_flag() {
    let mut chip8 = Chip8::init();
    chip8.cpu.set_i_reg_value(0x300);
    chip8.exec_instructions(0xD015);
    assert!(lit_pixels(&chip8).is_empty());
    assert_eq!(chip8.cpu.get_vreg_value(0xF), 0);
}

#[test]
fn draw_twice_clears_what_it_drew() {
    let mut chip8 = Chip8::init();
    // the glyph for 0 from the built-in table
    chip8.exec_instructions(0xA000 | FONTSET_START_ADDRESS);
    chip8.cpu.set_vreg_value(0, 10);
    chip8.cpu.set_vreg_value(1, 5);
    chip8.exec_instructions(0xD015);
    assert_eq!(lit_pixels(&chip8).len(), 14);
    assert_eq!(chip8.cpu.get_vreg_value(0xF), 1);
    chip8.cpu.set_vreg_value(0xF, 0);
    chip8.exec_instructions(0xD015);
    assert!(lit_pixels(&chip8).is_empty());
    // every pixel went back to 0, so the second draw lit nothing
    assert_eq!(chip8.cpu.get_vreg_value(0xF), 0);
}

#[test]
fn draw_wraps_at_the_edges() {
    let mut chip8 = Chip8::init();
    chip8.bus.ram_write_byte(0x300, 0xFF);
    chip8.bus.ram_write_byte(0x301, 0x80);
    chip8.cpu.set_i_reg_value(0x300);
    chip8.cpu.set_vreg_value(0, 62);
    chip8.cpu.set_vreg_value(1, 31);
    chip8.exec_instructions(0xD012);
    let mut expected = vec![
        62 + 31 * DISPLAY_WIDTH,
        63 + 31 * DISPLAY_WIDTH,
        0 + 31 * DISPLAY_WIDTH,
        1 + 31 * DISPLAY_WIDTH,
        2 + 31 * DISPLAY_WIDTH,
        3 + 31 * DISPLAY_WIDTH,
        4 + 31 * DISPLAY_WIDTH,
        5 + 31 * DISPLAY_WIDTH,
        62,
    ];
    expected.sort();
    assert_eq!(lit_pixels(&chip8), expected);
    assert_eq!(chip8.get_video_buffer().len(), DISPLAY_SIZE);
}

#[test]
fn draw_flags_a_lit_pixel_under_a_zero_bit() {
    let mut chip8 = Chip8::init();
    chip8.bus.display_write_pixel(1, 1);
    chip8.bus.ram_write_byte(0x300, 0x80);
    chip8.cpu.set_i_reg_value(0x300);
    chip8.exec_instructions(0xD011);
    assert_eq!(lit_pixels(&chip8), vec![0, 1]);
    assert_eq!(chip8.cpu.get_vreg_value(0xF), 1);
}

#[test]
fn clear_screen_turns_every_pixel_off() {
    let mut chip8 = Chip8::init();
    chip8.bus.display_write_pixel(100, 1);
    chip8.exec_instructions(0x00E0);
    assert!(lit_pixels(&chip8).is_empty());
}

#[test]
fn store_registers_includes_x() {
    let mut chip8 = Chip8::init();
    for k in 0..16u8 {
        chip8.cpu.set_vreg_value(k, 0x10 + k);
    }
    chip8.cpu.set_i_reg_value(0x400);
    chip8.exec_instructions(0xF355);
    for k in 0..4u16 {
        assert_eq!(chip8.bus.ram_read_byte(0x400 + k), 0x10 + k as u8);
    }
    assert_eq!(chip8.bus.ram_read_byte(0x404), 0);
    assert_eq!(chip8.bus.ram_read_byte(0x3FF), 0);
    assert_eq!(chip8.cpu.get_i_reg_value(), 0x400);
}

#[test]
fn load_registers_includes_x() {
    let mut chip8 = Chip8::init();
    for k in 0..16u16 {
        chip8.bus.ram_write_byte(0x400 + k, 0xA0 + k as u8);
    }
    chip8.cpu.set_i_reg_value(0x400);
    chip8.exec_instructions(0xF365);
    for k in 0..4u8 {
        assert_eq!(chip8.cpu.get_vreg_value(k), 0xA0 + k);
    }
    assert_eq!(chip8.cpu.get_vreg_value(4), 0);
}

#[test]
fn store_registers_wraps_at_end_of_memory() {
    let mut chip8 = Chip8::init();
    chip8.cpu.set_vreg_value(0, 7);
    chip8.cpu.set_vreg_value(1, 8);
    chip8.cpu.set_i_reg_value(0xFFF);
    chip8.exec_instructions(0xF155);
    assert_eq!(chip8.bus.ram_read_byte(0xFFF), 7);
    assert_eq!(chip8.bus.ram_read_byte(0x000), 8);
}

#[test]
fn unknown_opcodes_change_nothing() {
    for &opcode in &[0x0123u16, 0x5121, 0x8128, 0x812F, 0x9121, 0xE1FF, 0xF1FF, 0xF100] {
        let mut chip8 = Chip8::init();
        chip8.cpu.set_vreg_value(1, 3);
        chip8.cpu.set_vreg_value(2, 3);
        chip8.bus.display_write_pixel(5, 1);
        let known = chip8.exec_instructions(opcode);
        assert!(!known);
        assert_eq!(chip8.cpu.get_pc(), EXECUTION_INDEX);
        assert_eq!(chip8.cpu.get_vreg_value(1), 3);
        assert_eq!(chip8.cpu.get_vreg_value(2), 3);
        assert_eq!(chip8.cpu.get_vreg_value(0xF), 0);
        assert_eq!(chip8.cpu.get_i_reg_value(), 0);
        assert_eq!(chip8.cpu.get_sp(), 0);
        assert_eq!(lit_pixels(&chip8), vec![5]);
    }
}

#[test]
fn unknown_opcode_step_only_advances_pc() {
    let mut chip8 = Chip8::init();
    chip8.load_rom(vec![0x01, 0x23]);
    let known = chip8.run();
    assert!(!known);
    assert_eq!(chip8.cpu.get_pc(), 0x202);
    assert_eq!(chip8.cpu.get_sp(), 0);
}

#[test]
fn known_opcodes_report_known() {
    let mut chip8 = Chip8::init();
    assert!(chip8.exec_instructions(0x6105));
    assert!(chip8.exec_instructions(0x8126));
    assert!(chip8.exec_instructions(0xF133));
}

#[test]
fn bcd_of_register() {
    let mut chip8 = Chip8::init();
    chip8.cpu.set_vreg_value(4, 254);
    chip8.cpu.set_i_reg_value(0x500);
    chip8.exec_instructions(0xF433);
    assert_eq!(chip8.bus.ram_read_byte(0x500), 2);
    assert_eq!(chip8.bus.ram_read_byte(0x501), 5);
    assert_eq!(chip8.bus.ram_read_byte(0x502), 4);
}

#[test]
fn font_address_of_digit() {
    let mut chip8 = Chip8::init();
    chip8.cpu.set_vreg_value(2, 0xB);
    chip8.exec_instructions(0xF229);
    let addr = chip8.cpu.get_i_reg_value();
    assert_eq!(addr, FONTSET_START_ADDRESS + 55);
    // the glyph for B
    let rows: Vec<u8> = (0..5).map(|k| chip8.bus.ram_read_byte(addr + k)).collect();
    assert_eq!(rows, vec![0xE0, 0x90, 0xE0, 0x90, 0xE0]);
}

#[test]
fn add_to_address_register_wraps() {
    let mut chip8 = Chip8::init();
    chip8.cpu.set_i_reg_value(0xFFFF);
    chip8.cpu.set_vreg_value(3, 2);
    chip8.exec_instructions(0xF31E);
    assert_eq!(chip8.cpu.get_i_reg_value(), 1);
}

#[test]
fn timers_set_read_and_tick() {
    let mut chip8 = Chip8::init();
    chip8.cpu.set_vreg_value(1, 2);
    chip8.exec_instructions(0xF115);
    chip8.exec_instructions(0xF118);
    assert_eq!(chip8.cpu.get_delay_timer(), 2);
    assert_eq!(chip8.cpu.get_sound_timer(), 2);
    chip8.update_timer();
    chip8.exec_instructions(0xF207);
    assert_eq!(chip8.cpu.get_vreg_value(2), 1);
    chip8.update_timer();
    chip8.update_timer();
    assert_eq!(chip8.cpu.get_delay_timer(), 0);
    assert_eq!(chip8.cpu.get_sound_timer(), 0);
}

#[test]
fn wait_for_key_polls() {
    let mut chip8 = Chip8::init();
    chip8.load_rom(vec![0xF5, 0x0A]);
    chip8.run();
    assert_eq!(chip8.cpu.get_pc(), 0x200);
    chip8.bus.handle_key_press(0xC, true);
    chip8.bus.handle_key_press(0x7, true);
    chip8.run();
    assert_eq!(chip8.cpu.get_pc(), 0x202);
    assert_eq!(chip8.cpu.get_vreg_value(5), 0x7);
}

#[test]
fn key_skips_with_register_beyond_keypad() {
    let mut chip8 = Chip8::init();
    chip8.cpu.set_vreg_value(1, 0x20);
    chip8.exec_instructions(0xE19E);
    assert_eq!(chip8.cpu.get_pc(), 0x200);
    chip8.exec_instructions(0xE1A1);
    assert_eq!(chip8.cpu.get_pc(), 0x202);
}

#[test]
fn random_instruction_masks_the_byte() {
    let mut chip8 = Chip8::init();
    chip8.exec_with_random_byte(0xC30F, 0xAB);
    assert_eq!(chip8.cpu.get_vreg_value(3), 0x0B);
    chip8.exec_instructions(0xC300);
    assert_eq!(chip8.cpu.get_vreg_value(3), 0);
    for _ in 0..50 {
        chip8.exec_instructions(0xC40F);
        assert!(chip8.cpu.get_vreg_value(4) <= 0x0F);
    }
}

#[test]
fn jump_plus_v0() {
    let mut chip8 = Chip8::init();
    chip8.cpu.set_vreg_value(0, 0xFF);
    chip8.exec_instructions(0xBFFF);
    assert_eq!(chip8.cpu.get_pc(), 0x10FE);
}

#[test]
fn run_fetches_big_endian_and_executes() {
    let mut chip8 = Chip8::init();
    chip8.load_rom(vec![0x61, 0x2A, 0x71, 0x01, 0x12, 0x00]);
    assert_eq!(chip8.bus.ram_read_byte(0x200), 0x61);
    chip8.run();
    chip8.run();
    assert_eq!(chip8.cpu.get_vreg_value(1), 0x2B);
    assert_eq!(chip8.cpu.get_pc(), 0x204);
    chip8.run();
    assert_eq!(chip8.cpu.get_pc(), 0x200);
}

#[test]
fn run_state_changes() {
    let mut chip8 = Chip8::init();
    assert!(chip8.state == EmulatorState::Running);
    chip8.change_state(EmulatorState::PAUSED);
    assert!(chip8.state == EmulatorState::PAUSED);
    chip8.change_state(EmulatorState::Quit);
    assert!(chip8.state == EmulatorState::Quit);
}

#[test]
fn keypad_latch() {
    let mut chip8 = Chip8::init();
    assert!(!chip8.bus.is_key_pressed(9));
    chip8.bus.handle_key_press(9, true);
    assert!(chip8.bus.is_key_pressed(9));
    chip8.bus.handle_key_press(9, false);
    assert!(!chip8.bus.is_key_pressed(9));
}
