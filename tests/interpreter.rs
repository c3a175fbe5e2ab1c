use chip8::chip8::{Chip8, SetupError};
use chip8::keyboard::Keyboard;
use chip8::model::{KeyWait, StepError};

fn machine(rom: &[u8]) -> Chip8 {
    let mut chip8 = Chip8::new();
    assert_eq!(Ok(()), chip8.initialize_pixels(320, 640));
    assert_eq!(Ok(()), chip8.load_rom(&rom.to_vec()));
    chip8
}

fn run(chip8: &mut Chip8, keyboard: &mut Keyboard, steps: usize) {
    for _ in 0..steps {
        assert_eq!(Ok(()), chip8.step(keyboard, 0));
    }
}

#[test]
fn new_machine_has_font_and_starts_at_program() {
    let chip8 = Chip8::new();
    assert_eq!(0x200, chip8.get_program_counter());
    assert_eq!(0xF0, chip8.get_memory_value(0));
    assert_eq!(0x20, chip8.get_memory_value(5));
    assert_eq!(0x80, chip8.get_memory_value(79));
    assert_eq!(0, chip8.get_memory_value(80));
    assert_eq!(1, chip8.vram_scale());
    assert!(!chip8.vram_changed());
    assert_eq!(0, chip8.vram().len());
}

#[test]
fn load_immediate_sets_register() {
    let mut chip8 = machine(&[0x6A, 0x42]);
    let mut keyboard = Keyboard::new();
    run(&mut chip8, &mut keyboard, 1);
    assert_eq!(0x42, chip8.get_register_value(0xA));
    assert_eq!(0x202, chip8.get_program_counter());
}

#[test]
fn add_immediate_wraps_without_flag() {
    let mut chip8 = machine(&[0x61, 0xFF, 0x6F, 0x07, 0x71, 0x03]);
    let mut keyboard = Keyboard::new();
    run(&mut chip8, &mut keyboard, 3);
    assert_eq!(2, chip8.get_register_value(1));
    assert_eq!(7, chip8.get_register_value(0xF));
}

#[test]
fn add_registers_sets_carry() {
    let mut chip8 = machine(&[0x60, 250, 0x61, 10, 0x80, 0x14]);
    let mut keyboard = Keyboard::new();
    run(&mut chip8, &mut keyboard, 3);
    assert_eq!(4, chip8.get_register_value(0));
    assert_eq!(1, chip8.get_register_value(0xF));

    let mut chip8 = machine(&[0x60, 10, 0x61, 250, 0x80, 0x14]);
    run(&mut chip8, &mut keyboard, 3);
    assert_eq!(4, chip8.get_register_value(0));
    assert_eq!(1, chip8.get_register_value(0xF));

    let mut chip8 = machine(&[0x60, 10, 0x61, 20, 0x80, 0x14]);
    run(&mut chip8, &mut keyboard, 3);
    assert_eq!(30, chip8.get_register_value(0));
    assert_eq!(0, chip8.get_register_value(0xF));
}

#[test]
fn subtract_registers_sets_borrow_flag() {
    let mut chip8 = machine(&[0x62, 10, 0x63, 250, 0x82, 0x35]);
    let mut keyboard = Keyboard::new();
    run(&mut chip8, &mut keyboard, 3);
    assert_eq!(16, chip8.get_register_value(2));
    assert_eq!(0, chip8.get_register_value(0xF));

    let mut chip8 = machine(&[0x62, 250, 0x63, 10, 0x82, 0x35]);
    run(&mut chip8, &mut keyboard, 3);
    assert_eq!(240, chip8.get_register_value(2));
    assert_eq!(1, chip8.get_register_value(0xF));
}

#[test]
fn reverse_subtract_sets_flag() {
    let mut chip8 = machine(&[0x62, 10, 0x63, 250, 0x82, 0x37]);
    let mut keyboard = Keyboard::new();
    run(&mut chip8, &mut keyboard, 3);
    assert_eq!(240, chip8.get_register_value(2));
    assert_eq!(1, chip8.get_register_value(0xF));
}

#[test]
fn shifts_move_bit_into_flag() {
    let mut chip8 = machine(&[0x64, 0b0000_0011, 0x84, 0x06]);
    let mut keyboard = Keyboard::new();
    run(&mut chip8, &mut keyboard, 2);
    assert_eq!(1, chip8.get_register_value(4));
    assert_eq!(1, chip8.get_register_value(0xF));

    let mut chip8 = machine(&[0x64, 0b1000_0001, 0x84, 0x0E]);
    run(&mut chip8, &mut keyboard, 2);
    assert_eq!(2, chip8.get_register_value(4));
    assert_eq!(1, chip8.get_register_value(0xF));
}

#[test]
fn bitwise_operations() {
    let mut chip8 = machine(&[
        0x60, 0b1100, 0x61, 0b1010, 0x62, 0b1100, 0x63, 0b1100, 0x80, 0x11, 0x82, 0x12, 0x83, 0x13,
    ]);
    let mut keyboard = Keyboard::new();
    run(&mut chip8, &mut keyboard, 7);
    assert_eq!(0b1110, chip8.get_register_value(0));
    assert_eq!(0b1000, chip8.get_register_value(2));
    assert_eq!(0b0110, chip8.get_register_value(3));
}

#[test]
fn sprite_wraps_onto_left_edge() {
    // memory[0x300] = 0xFF (stored from V0), then draw one row of it at (60, 0).
    let mut chip8 = machine(&[0x60, 0xFF, 0xA3, 0x00, 0xF0, 0x55, 0x60, 60, 0x61, 0, 0xD0, 0x11]);
    let mut keyboard = Keyboard::new();
    run(&mut chip8, &mut keyboard, 6);
    for x in 0..64 {
        let expected = x >= 60 || x < 4;
        assert_eq!(expected, chip8.is_pixel_on(x, 0), "column {}", x);
    }
    for x in 0..64 {
        assert!(!chip8.is_pixel_on(x, 1));
    }
    assert_eq!(0, chip8.get_register_value(0xF));
    assert!(chip8.vram_changed());
}

#[test]
fn drawing_twice_clears_and_reports_collision() {
    let mut chip8 = machine(&[
        0x60, 0xFF, 0xA3, 0x00, 0xF0, 0x55, 0x60, 10, 0x61, 5, 0xD0, 0x11, 0xD0, 0x11,
    ]);
    let mut keyboard = Keyboard::new();
    run(&mut chip8, &mut keyboard, 6);
    for x in 10..18 {
        assert!(chip8.is_pixel_on(x, 5));
    }
    assert_eq!(0, chip8.get_register_value(0xF));
    run(&mut chip8, &mut keyboard, 1);
    for x in 0..64 {
        assert!(!chip8.is_pixel_on(x, 5));
    }
    assert_eq!(1, chip8.get_register_value(0xF));
}

#[test]
fn font_glyph_draws_and_clear_screen() {
    // V0 = 0xF; I = glyph of V0; draw at (V1, V1) = (0, 0); then clear.
    let mut chip8 = machine(&[0x60, 0x0F, 0xF0, 0x29, 0xD1, 0x15, 0x00, 0xE0]);
    let mut keyboard = Keyboard::new();
    run(&mut chip8, &mut keyboard, 2);
    assert_eq!(75, chip8.get_index_register());
    run(&mut chip8, &mut keyboard, 1);
    // glyph F: F0 80 F0 80 80
    assert!(chip8.is_pixel_on(0, 0) && chip8.is_pixel_on(3, 0) && !chip8.is_pixel_on(4, 0));
    assert!(chip8.is_pixel_on(0, 1) && !chip8.is_pixel_on(1, 1));
    assert!(chip8.is_pixel_on(0, 4) && !chip8.is_pixel_on(1, 4));
    chip8.mark_vram_rendered();
    assert!(!chip8.vram_changed());
    run(&mut chip8, &mut keyboard, 1);
    assert!(!chip8.is_pixel_on(0, 0));
    assert!(chip8.vram_changed());
}

#[test]
fn draw_past_memory_end_is_skipped() {
    let mut chip8 = machine(&[0x6F, 0x05, 0xAF, 0xFE, 0xD0, 0x05]);
    let mut keyboard = Keyboard::new();
    run(&mut chip8, &mut keyboard, 3);
    assert_eq!(5, chip8.get_register_value(0xF));
    assert!(!chip8.vram_changed());
    assert_eq!(0x206, chip8.get_program_counter());
}

#[test]
fn key_wait_resolves_after_press_and_release() {
    let mut chip8 = machine(&[0x63, 0xFF, 0xF3, 0x0A]);
    let mut keyboard = Keyboard::new();
    run(&mut chip8, &mut keyboard, 1);
    run(&mut chip8, &mut keyboard, 1);
    assert_eq!(0x202, chip8.get_program_counter());
    assert_eq!(KeyWait::AwaitingPress, chip8.get_key_wait());
    keyboard.set_key(5, true);
    run(&mut chip8, &mut keyboard, 1);
    assert_eq!(0x202, chip8.get_program_counter());
    assert_eq!(KeyWait::AwaitingRelease, chip8.get_key_wait());
    run(&mut chip8, &mut keyboard, 1);
    assert_eq!(0x202, chip8.get_program_counter());
    keyboard.set_key(5, false);
    run(&mut chip8, &mut keyboard, 1);
    assert_eq!(5, chip8.get_register_value(3));
    assert_eq!(0x204, chip8.get_program_counter());
    assert_eq!(KeyWait::Idle, chip8.get_key_wait());
}

#[test]
fn store_then_load_registers_round_trip() {
    let mut chip8 = machine(&[
        0x60, 11, 0x61, 22, 0x62, 33, 0x63, 44, 0xA4, 0x00, 0xF3, 0x55, 0x60, 0, 0x61, 0, 0x62, 0,
        0x63, 0, 0xF3, 0x65,
    ]);
    let mut keyboard = Keyboard::new();
    run(&mut chip8, &mut keyboard, 6);
    assert_eq!(22, chip8.get_memory_value(0x401));
    assert_eq!(0x400, chip8.get_index_register());
    run(&mut chip8, &mut keyboard, 5);
    assert_eq!(11, chip8.get_register_value(0));
    assert_eq!(22, chip8.get_register_value(1));
    assert_eq!(33, chip8.get_register_value(2));
    assert_eq!(44, chip8.get_register_value(3));
}

#[test]
fn binary_coded_decimal() {
    let mut chip8 = machine(&[0x65, 254, 0xA5, 0x00, 0xF5, 0x33]);
    let mut keyboard = Keyboard::new();
    run(&mut chip8, &mut keyboard, 3);
    assert_eq!(2, chip8.get_memory_value(0x500));
    assert_eq!(5, chip8.get_memory_value(0x501));
    assert_eq!(4, chip8.get_memory_value(0x502));
}

#[test]
fn return_with_empty_stack_is_refused() {
    let mut chip8 = machine(&[0x00, 0xEE]);
    let mut keyboard = Keyboard::new();
    assert_eq!(Err(StepError::StackUnderflow), chip8.step(&mut keyboard, 0));
    assert_eq!(0x200, chip8.get_program_counter());
    assert_eq!(0, chip8.stack_depth());
}

#[test]
fn call_and_return() {
    // 0x200: call 0x206; 0x202: V0 = 1; 0x206: V1 = 2; 0x208: return
    let mut chip8 = machine(&[0x22, 0x06, 0x60, 0x01, 0x00, 0x00, 0x61, 0x02, 0x00, 0xEE]);
    let mut keyboard = Keyboard::new();
    run(&mut chip8, &mut keyboard, 1);
    assert_eq!(0x206, chip8.get_program_counter());
    assert_eq!(1, chip8.stack_depth());
    run(&mut chip8, &mut keyboard, 2);
    assert_eq!(0x202, chip8.get_program_counter());
    assert_eq!(0, chip8.stack_depth());
    run(&mut chip8, &mut keyboard, 1);
    assert_eq!(1, chip8.get_register_value(0));
}

#[test]
fn jumps_and_skips() {
    // 0x200: V0 = 4; 0x202: skip if V0 == 4; 0x204: (skipped); 0x206: jump to V0 + 0x300
    let mut chip8 = machine(&[0x60, 0x04, 0x30, 0x04, 0x60, 0x09, 0xB3, 0x00]);
    let mut keyboard = Keyboard::new();
    run(&mut chip8, &mut keyboard, 2);
    assert_eq!(0x206, chip8.get_program_counter());
    run(&mut chip8, &mut keyboard, 1);
    assert_eq!(0x306, chip8.get_program_counter());

    let mut chip8 = machine(&[0x13, 0x45]);
    run(&mut chip8, &mut keyboard, 1);
    assert_eq!(0x345, chip8.get_program_counter());
}

#[test]
fn key_skips() {
    let mut chip8 = machine(&[0x60, 0x07, 0xE0, 0x9E, 0x00, 0x00, 0xE0, 0xA1]);
    let mut keyboard = Keyboard::new();
    keyboard.set_key(7, true);
    run(&mut chip8, &mut keyboard, 2);
    assert_eq!(0x206, chip8.get_program_counter());
    run(&mut chip8, &mut keyboard, 1);
    assert_eq!(0x208, chip8.get_program_counter());
}

#[test]
fn timers_count_down_to_zero() {
    let mut chip8 = machine(&[0x60, 0x03, 0xF0, 0x15, 0xF0, 0x18, 0xF1, 0x07]);
    let mut keyboard = Keyboard::new();
    run(&mut chip8, &mut keyboard, 3);
    assert_eq!(3, chip8.get_delay_timer());
    assert_eq!(3, chip8.get_sound_timer());
    assert!(chip8.play_sound());
    for _ in 0..10 {
        chip8.decrement_delay_timer();
        chip8.decrement_sound_timer();
    }
    assert_eq!(0, chip8.get_delay_timer());
    assert_eq!(0, chip8.get_sound_timer());
    assert!(!chip8.play_sound());
    run(&mut chip8, &mut keyboard, 1);
    assert_eq!(0, chip8.get_register_value(1));
}

#[test]
fn random_byte_is_masked() {
    let mut chip8 = machine(&[0xC2, 0x0F, 0xC3, 0x00]);
    let mut keyboard = Keyboard::new();
    assert_eq!(Ok(()), chip8.step(&mut keyboard, 0xAB));
    assert_eq!(0x0B, chip8.get_register_value(2));
    assert_eq!(Ok(()), chip8.handle_next_instruction(&mut keyboard));
    assert_eq!(0, chip8.get_register_value(3));
    assert_eq!(0x204, chip8.get_program_counter());
}

#[test]
fn program_counter_past_memory_is_refused() {
    let mut chip8 = machine(&[0x1F, 0xFF]);
    let mut keyboard = Keyboard::new();
    run(&mut chip8, &mut keyboard, 1);
    assert_eq!(Err(StepError::ProgramCounterOutOfRange), chip8.step(&mut keyboard, 0));
    assert_eq!(0xFFF, chip8.get_program_counter());
}

#[test]
fn unknown_instruction_only_advances() {
    let mut chip8 = machine(&[0x80, 0x08, 0xE0, 0x00]);
    let mut keyboard = Keyboard::new();
    run(&mut chip8, &mut keyboard, 2);
    assert_eq!(0x204, chip8.get_program_counter());
}

#[test]
fn window_size_sets_scale() {
    let mut chip8 = Chip8::new();
    assert_eq!(Ok(()), chip8.initialize_pixels(320, 640));
    assert_eq!(10, chip8.vram_scale());
    assert_eq!(64, chip8.vram()[0].len());
    assert_eq!(32, chip8.vram().len());
    assert_eq!((5, 7), (chip8.vram()[7][5].x, chip8.vram()[7][5].y));
}

#[test]
fn window_size_errors() {
    let mut chip8 = Chip8::new();
    assert_eq!(
        Err(SetupError::HeightNotMultiple { height: 330 }),
        chip8.initialize_pixels(330, 640)
    );
    assert_eq!(
        Err(SetupError::WidthNotMultiple { width: 650 }),
        chip8.initialize_pixels(320, 650)
    );
    assert_eq!(
        Err(SetupError::ScaleMismatch { width_scale: 20, height_scale: 10 }),
        chip8.initialize_pixels(320, 1280)
    );
    assert_eq!(1, chip8.vram_scale());
    assert_eq!(0, chip8.vram().len());
}

#[test]
fn rom_size_limit() {
    let mut chip8 = Chip8::new();
    assert_eq!(Ok(()), chip8.load_rom(&vec![0xAA; 4096 - 0x200]));
    assert_eq!(0xAA, chip8.get_memory_value(4095));
    assert_eq!(
        Err(SetupError::RomTooLarge { size: 4096 - 0x200 + 1 }),
        chip8.load_rom(&vec![0; 4096 - 0x200 + 1])
    );
    assert_eq!(0xAA, chip8.get_memory_value(0x200));
}

#[test]
fn set_register_value_is_visible() {
    let mut chip8 = Chip8::new();
    chip8.set_register_value(0xE, 99);
    assert_eq!(99, chip8.get_register_value(0xE));
}

#[test]
fn decode_combines_bytes_big_endian() {
    assert_eq!(0xD015, Chip8::decode(0xD0, 0x15));
    assert_eq!(0x00EE, Chip8::decode(0x00, 0xEE));
}

#[test]
fn draw_and_clear_without_framebuffer_only_advance() {
    let mut chip8 = Chip8::new();
    assert_eq!(Ok(()), chip8.load_rom(&vec![0x6F, 0x05, 0xD0, 0x05, 0x00, 0xE0]));
    let mut keyboard = Keyboard::new();
    run(&mut chip8, &mut keyboard, 3);
    assert_eq!(5, chip8.get_register_value(0xF));
    assert!(!chip8.vram_changed());
    assert_eq!(0, chip8.vram().len());
    assert_eq!(0x206, chip8.get_program_counter());
}

#[test]
fn key_wait_keeps_first_key_while_awaiting_release() {
    let mut chip8 = machine(&[0x63, 0xFF, 0xF3, 0x0A]);
    let mut keyboard = Keyboard::new();
    run(&mut chip8, &mut keyboard, 1);
    keyboard.set_key(5, true);
    run(&mut chip8, &mut keyboard, 1);
    assert_eq!(5, keyboard.get_halt_key());
    keyboard.set_key(2, true);
    run(&mut chip8, &mut keyboard, 1);
    assert_eq!(5, keyboard.get_halt_key());
    assert_eq!(KeyWait::AwaitingRelease, chip8.get_key_wait());
    keyboard.set_key(5, false);
    run(&mut chip8, &mut keyboard, 1);
    assert_eq!(5, chip8.get_register_value(3));
    assert_eq!(0x204, chip8.get_program_counter());
}

#[test]
fn recognized_instructions() {
    for word in [0x00E0u16, 0x00EE, 0x1234, 0x5120, 0x8AB7, 0x8ABE, 0x9120, 0xE19E, 0xE1A1, 0xF10A, 0xF165] {
        assert!(Chip8::is_recognized_instruction(word), "{:#06x}", word);
    }
    for word in [0x0000u16, 0x01E0, 0x5121, 0x8AB8, 0x8ABF, 0x9121, 0xE19F, 0xF100, 0xF166] {
        assert!(!Chip8::is_recognized_instruction(word), "{:#06x}", word);
    }
}

#[test]
fn next_instruction_reads_word_at_program_counter() {
    let mut chip8 = machine(&[0xA1, 0x23, 0x1F, 0xFF]);
    assert_eq!(Some(0xA123), chip8.next_instruction());
    let mut keyboard = Keyboard::new();
    run(&mut chip8, &mut keyboard, 2);
    assert_eq!(None, chip8.next_instruction());
}
