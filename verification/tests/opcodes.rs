use chip8::EmuError;
use chip8::Emulator;
use chip8::StepOutcome;

fn machine_with(program: &Vec<u8>) -> Emulator {
    let mut emu = Emulator::new();
    emu.init(program).unwrap();
    emu
}

#[test]
fn test1() {
    let mut emu = Emulator::new();
    emu.write_byte(0, 0x81);
    emu.write_byte(1, 0x26);
    emu.set_register(2, 0b1111);

    emu.decode_next().unwrap();

    assert_eq!(emu.register(2), 0b1111);
    assert_eq!(emu.register(1), 0b111);
}

#[test]
fn add_regs_with_carry() {
    let mut emu = machine_with(&vec![0x81, 0x24]);
    emu.set_register(1, 200);
    emu.set_register(2, 100);
    assert_eq!(emu.decode_next(), Ok(StepOutcome::Executed));
    assert_eq!(emu.register(1), 44);
    assert_eq!(emu.register(0xf), 1);
}

#[test]
fn add_regs_without_carry() {
    let mut emu = machine_with(&vec![0x81, 0x24]);
    emu.set_register(1, 3);
    emu.set_register(2, 4);
    emu.decode_next().unwrap();
    assert_eq!(emu.register(1), 7);
    assert_eq!(emu.register(0xf), 0);
}

#[test]
fn sub_regs_with_borrow() {
    let mut emu = machine_with(&vec![0x81, 0x25]);
    emu.set_register(1, 10);
    emu.set_register(2, 20);
    emu.decode_next().unwrap();
    assert_eq!(emu.register(1), 246);
    assert_eq!(emu.register(0xf), 0);
}

#[test]
fn sub_regs_without_borrow() {
    let mut emu = machine_with(&vec![0x81, 0x25]);
    emu.set_register(1, 20);
    emu.set_register(2, 10);
    emu.decode_next().unwrap();
    assert_eq!(emu.register(1), 10);
    assert_eq!(emu.register(0xf), 1);
}

#[test]
fn sub_regs_equal_sets_no_borrow_flag() {
    let mut emu = machine_with(&vec![0x81, 0x25]);
    emu.set_register(1, 42);
    emu.set_register(2, 42);
    emu.decode_next().unwrap();
    assert_eq!(emu.register(1), 0);
    assert_eq!(emu.register(0xf), 1);
}

#[test]
fn sub_regs_reverse() {
    let mut emu = machine_with(&vec![0x81, 0x27]);
    emu.set_register(1, 10);
    emu.set_register(2, 30);
    emu.decode_next().unwrap();
    assert_eq!(emu.register(1), 20);
    assert_eq!(emu.register(0xf), 1);
}

#[test]
fn shift_right_flag_from_low_bit() {
    let mut emu = machine_with(&vec![0x81, 0x26]);
    emu.set_register(2, 0b0001_0011);
    emu.decode_next().unwrap();
    assert_eq!(emu.register(1), 0b0000_1001);
    assert_eq!(emu.register(0xf), 1);
    assert_eq!(emu.register(2), 0b0001_0011);
}

#[test]
fn shift_right_same_source_and_destination() {
    let mut emu = machine_with(&vec![0x81, 0x16]);
    emu.set_register(1, 19);
    emu.decode_next().unwrap();
    assert_eq!(emu.register(1), 9);
    assert_eq!(emu.register(0xf), 1);
}

#[test]
fn shift_left_flag_from_high_bit() {
    let mut emu = machine_with(&vec![0x81, 0x2e]);
    emu.set_register(2, 0b1001_0001);
    emu.decode_next().unwrap();
    assert_eq!(emu.register(1), 34);
    assert_eq!(emu.register(0xf), 1);
}

#[test]
fn shift_left_without_carry_bit() {
    let mut emu = machine_with(&vec![0x81, 0x2e]);
    emu.set_register(2, 0b0001_0001);
    emu.decode_next().unwrap();
    assert_eq!(emu.register(1), 34);
    assert_eq!(emu.register(0xf), 0);
}

#[test]
fn bitwise_ops_and_move() {
    let mut emu = machine_with(&vec![0x81, 0x21, 0x81, 0x32, 0x81, 0x43, 0x85, 0x10]);
    emu.set_register(1, 0b1100);
    emu.set_register(2, 0b1010);
    emu.decode_next().unwrap();
    assert_eq!(emu.register(1), 0b1110);
    emu.set_register(3, 0b0110);
    emu.decode_next().unwrap();
    assert_eq!(emu.register(1), 0b0110);
    emu.set_register(4, 0b0101);
    emu.decode_next().unwrap();
    assert_eq!(emu.register(1), 0b0011);
    emu.decode_next().unwrap();
    assert_eq!(emu.register(5), 0b0011);
}

#[test]
fn add_immediate_wraps_without_flag() {
    let mut emu = machine_with(&vec![0x71, 0x10]);
    emu.set_register(1, 0xf8);
    emu.set_register(0xf, 7);
    emu.decode_next().unwrap();
    assert_eq!(emu.register(1), 8);
    assert_eq!(emu.register(0xf), 7);
}

#[test]
fn set_immediate() {
    let mut emu = machine_with(&vec![0x6a, 0x5c]);
    emu.decode_next().unwrap();
    assert_eq!(emu.register(0xa), 0x5c);
}

#[test]
fn skip_if_eq_immediate() {
    let mut emu = machine_with(&vec![0x30, 0x07, 0x00, 0x00, 0x30, 0x08]);
    emu.set_register(0, 7);
    emu.decode_next().unwrap();
    assert_eq!(emu.pc(), 0x204);
    emu.decode_next().unwrap();
    assert_eq!(emu.pc(), 0x206);
}

#[test]
fn skip_if_regs_eq_and_ne() {
    let mut emu = machine_with(&vec![0x51, 0x20, 0x91, 0x20]);
    emu.set_register(1, 5);
    emu.set_register(2, 5);
    emu.decode_next().unwrap();
    assert_eq!(emu.pc(), 0x204);
    emu.decode_next().unwrap();
    assert_eq!(emu.pc(), 0x206);
}

#[test]
fn jump_and_jump_with_offset() {
    let mut emu = machine_with(&vec![0x12, 0x04, 0x00, 0x00, 0xb3, 0x00]);
    emu.decode_next().unwrap();
    assert_eq!(emu.pc(), 0x204);
    emu.set_register(0, 5);
    emu.decode_next().unwrap();
    assert_eq!(emu.pc(), 0x305);
}

#[test]
fn call_then_return_round_trip() {
    let mut emu = machine_with(&vec![0x23, 0x00]);
    emu.write_byte(0x300, 0x00);
    emu.write_byte(0x301, 0xee);
    emu.decode_next().unwrap();
    assert_eq!(emu.pc(), 0x300);
    emu.decode_next().unwrap();
    assert_eq!(emu.pc(), 0x202);
}

#[test]
fn random_masked_with_zero_mask() {
    let mut emu = machine_with(&vec![0xc5, 0x00]);
    emu.set_register(5, 0xaa);
    emu.decode_next().unwrap();
    assert_eq!(emu.register(5), 0);
}

#[test]
fn random_masked_stays_within_mask() {
    let mut emu = machine_with(&vec![0xc5, 0x0f]);
    emu.decode_next().unwrap();
    assert_eq!(emu.register(5) & 0xf0, 0);
}

#[test]
fn unknown_opcode_is_reported_and_skipped() {
    let mut emu = machine_with(&vec![0x00, 0x01, 0x6a, 0x07]);
    assert_eq!(emu.decode_next(), Ok(StepOutcome::UnknownOpcode(0x0001)));
    assert_eq!(emu.pc(), 0x202);
    assert_eq!(emu.decode_next(), Ok(StepOutcome::Executed));
    assert_eq!(emu.register(0xa), 7);
}

#[test]
fn set_index_sprite_addr_add_index() {
    let mut emu = machine_with(&vec![0xa3, 0x00, 0xf0, 0x1e, 0xf1, 0x29]);
    emu.decode_next().unwrap();
    assert_eq!(emu.index_reg(), 0x300);
    emu.set_register(0, 5);
    emu.decode_next().unwrap();
    assert_eq!(emu.index_reg(), 0x305);
    emu.set_register(1, 0xa);
    emu.decode_next().unwrap();
    assert_eq!(emu.index_reg(), 50);
}

#[test]
fn store_bcd_digits() {
    let mut emu = machine_with(&vec![0xa3, 0x00, 0xf0, 0x33]);
    emu.set_register(0, 234);
    emu.decode_next().unwrap();
    emu.decode_next().unwrap();
    assert_eq!(emu.read_byte(0x300), 2);
    assert_eq!(emu.read_byte(0x301), 3);
    assert_eq!(emu.read_byte(0x302), 4);
}

#[test]
fn store_and_load_registers_round_trip() {
    let mut emu = machine_with(&vec![0xa3, 0x00, 0xf2, 0x55, 0xa3, 0x00, 0xf2, 0x65]);
    emu.set_register(0, 11);
    emu.set_register(1, 22);
    emu.set_register(2, 33);
    emu.decode_next().unwrap();
    emu.decode_next().unwrap();
    assert_eq!(emu.read_byte(0x300), 11);
    assert_eq!(emu.read_byte(0x301), 22);
    assert_eq!(emu.read_byte(0x302), 33);
    assert_eq!(emu.index_reg(), 0x303);
    emu.set_register(0, 0);
    emu.set_register(1, 0);
    emu.set_register(2, 0);
    emu.decode_next().unwrap();
    emu.decode_next().unwrap();
    assert_eq!(emu.register(0), 11);
    assert_eq!(emu.register(1), 22);
    assert_eq!(emu.register(2), 33);
    assert_eq!(emu.index_reg(), 0x303);
}

#[test]
fn draw_then_clear_leaves_all_pixels_off() {
    let mut emu = machine_with(&vec![0xa0, 0x00, 0xd0, 0x15, 0x00, 0xe0]);
    emu.decode_next().unwrap();
    emu.decode_next().unwrap();
    assert!(emu.pixel(0, 0));
    emu.decode_next().unwrap();
    for row in 0..32 {
        for col in 0..64 {
            assert!(!emu.pixel(row, col));
        }
    }
    assert!(emu.gfx_updated());
}

#[test]
fn draw_twice_restores_framebuffer_and_reports_collision() {
    let mut emu = machine_with(&vec![0xa3, 0x00, 0xd0, 0x12, 0xd0, 0x12]);
    emu.write_byte(0x300, 0b1010_0000);
    emu.write_byte(0x301, 0b0101_0000);
    emu.set_register(0, 3);
    emu.set_register(1, 5);
    emu.decode_next().unwrap();
    emu.decode_next().unwrap();
    assert!(emu.pixel(5, 3));
    assert!(emu.pixel(5, 5));
    assert!(emu.pixel(6, 4));
    assert!(emu.pixel(6, 6));
    assert!(!emu.pixel(5, 4));
    assert_eq!(emu.register(0xf), 0);
    emu.decode_next().unwrap();
    for row in 0..32 {
        for col in 0..64 {
            assert!(!emu.pixel(row, col));
        }
    }
    assert_eq!(emu.register(0xf), 1);
}

#[test]
fn draw_clips_at_screen_edges() {
    let mut emu = machine_with(&vec![0xa3, 0x00, 0xd0, 0x12]);
    emu.write_byte(0x300, 0xff);
    emu.write_byte(0x301, 0xff);
    emu.set_register(0, 62);
    emu.set_register(1, 31);
    emu.decode_next().unwrap();
    emu.decode_next().unwrap();
    assert!(emu.pixel(31, 62));
    assert!(emu.pixel(31, 63));
    assert!(!emu.pixel(31, 61));
    assert!(!emu.pixel(0, 0));
    assert_eq!(emu.register(0xf), 0);
}

#[test]
fn draw_wraps_start_coordinates() {
    let mut emu = machine_with(&vec![0xa3, 0x00, 0xd0, 0x11]);
    emu.write_byte(0x300, 0b1000_0000);
    emu.set_register(0, 64);
    emu.set_register(1, 32);
    emu.decode_next().unwrap();
    emu.decode_next().unwrap();
    assert!(emu.pixel(0, 0));
}

#[test]
fn wait_for_key_repeats_then_takes_lowest_key() {
    let mut emu = machine_with(&vec![0xf3, 0x0a]);
    assert_eq!(emu.decode_next(), Ok(StepOutcome::Executed));
    assert_eq!(emu.pc(), 0x200);
    emu.decode_next().unwrap();
    assert_eq!(emu.pc(), 0x200);
    emu.set_key(7, true).unwrap();
    emu.set_key(4, true).unwrap();
    emu.decode_next().unwrap();
    assert_eq!(emu.pc(), 0x202);
    assert_eq!(emu.register(3), 4);
}

#[test]
fn skip_on_key_state() {
    let mut emu = machine_with(&vec![0xe0, 0x9e, 0x00, 0x00, 0xe0, 0xa1, 0xe0, 0xa1]);
    emu.set_register(0, 9);
    emu.set_key(9, true).unwrap();
    emu.decode_next().unwrap();
    assert_eq!(emu.pc(), 0x204);
    emu.decode_next().unwrap();
    assert_eq!(emu.pc(), 0x206);
    emu.set_key(9, false).unwrap();
    emu.decode_next().unwrap();
    assert_eq!(emu.pc(), 0x20a);
}

#[test]
fn delay_timer_set_and_read_through_instructions() {
    let mut emu = machine_with(&vec![0xf0, 0x15, 0xf1, 0x07]);
    emu.set_register(0, 9);
    emu.decode_next().unwrap();
    assert_eq!(emu.delay_timer(), 9);
    emu.decode_next().unwrap();
    assert_eq!(emu.register(1), 9);
}

#[test]
fn key_index_out_of_range_from_register_fails() {
    let mut emu = machine_with(&vec![0xe0, 0x9e]);
    emu.set_register(0, 16);
    assert_eq!(emu.decode_next(), Err(EmuError::KeyIndexOutOfRange));
}

#[test]
fn stack_underflow_on_return_without_call() {
    let mut emu = machine_with(&vec![0x00, 0xee]);
    assert_eq!(emu.decode_next(), Err(EmuError::StackUnderflow));
    assert_eq!(emu.pc(), 0x202);
}

#[test]
fn stack_overflow_on_seventeenth_call() {
    let mut emu = machine_with(&vec![0x22, 0x00]);
    for _ in 0..16 {
        assert_eq!(emu.decode_next(), Ok(StepOutcome::Executed));
    }
    assert_eq!(emu.decode_next(), Err(EmuError::StackOverflow));
}

#[test]
fn fetch_out_of_bounds_after_jump_to_last_byte() {
    let mut emu = machine_with(&vec![0x1f, 0xff]);
    emu.decode_next().unwrap();
    assert_eq!(emu.pc(), 0xfff);
    assert_eq!(emu.decode_next(), Err(EmuError::FetchOutOfBounds));
}

#[test]
fn bcd_past_end_of_memory_fails() {
    let mut emu = machine_with(&vec![0xaf, 0xff, 0xf0, 0x33]);
    emu.decode_next().unwrap();
    assert_eq!(emu.decode_next(), Err(EmuError::MemoryOutOfBounds));
}

#[test]
fn sprite_read_past_end_of_memory_fails() {
    let mut emu = machine_with(&vec![0xaf, 0xff, 0xd0, 0x12]);
    emu.decode_next().unwrap();
    assert_eq!(emu.decode_next(), Err(EmuError::MemoryOutOfBounds));
}

#[test]
fn store_registers_past_end_of_memory_fails() {
    let mut emu = machine_with(&vec![0xaf, 0xff, 0xf1, 0x55]);
    emu.decode_next().unwrap();
    assert_eq!(emu.decode_next(), Err(EmuError::MemoryOutOfBounds));
}
