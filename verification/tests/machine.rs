use chip8::EmuError;
use chip8::Emulator;

#[test]
fn new_machine_is_zeroed() {
    let emu = Emulator::new();
    assert_eq!(emu.pc(), 0);
    assert_eq!(emu.index_reg(), 0);
    assert_eq!(emu.delay_timer(), 0);
    assert_eq!(emu.sound_timer(), 0);
    assert!(!emu.gfx_updated());
    for r in 0..16 {
        assert_eq!(emu.register(r), 0);
    }
    for a in 0..4096 {
        assert_eq!(emu.read_byte(a), 0);
    }
    for row in 0..32 {
        for col in 0..64 {
            assert!(!emu.pixel(row, col));
        }
    }
}

#[test]
fn init_loads_program_and_font() {
    let mut emu = Emulator::new();
    emu.init(&vec![0x12, 0x34, 0x56]).unwrap();
    assert_eq!(emu.pc(), 0x200);
    assert!(emu.gfx_updated());
    assert_eq!(emu.read_byte(0x200), 0x12);
    assert_eq!(emu.read_byte(0x201), 0x34);
    assert_eq!(emu.read_byte(0x202), 0x56);
    assert_eq!(emu.read_byte(0x203), 0);
    assert_eq!(emu.read_byte(0), 0xf0);
    assert_eq!(emu.read_byte(79), 0x80);
    assert_eq!(emu.read_byte(80), 0);
}

#[test]
fn load_program_of_exactly_full_capacity_succeeds() {
    let mut emu = Emulator::new();
    let program = vec![0xab; 4096 - 0x200];
    assert_eq!(emu.load_program(&program), Ok(()));
    assert_eq!(emu.read_byte(0x200), 0xab);
    assert_eq!(emu.read_byte(4095), 0xab);
}

#[test]
fn load_program_one_byte_too_large_fails() {
    let mut emu = Emulator::new();
    let program = vec![0xab; 4096 - 0x200 + 1];
    assert_eq!(emu.load_program(&program), Err(EmuError::OutOfMemory));
    assert_eq!(emu.read_byte(0x200), 0);
    assert_eq!(emu.read_byte(0), 0);
}

#[test]
fn load_empty_program_still_installs_font() {
    let mut emu = Emulator::new();
    emu.load_program(&Vec::new()).unwrap();
    assert_eq!(emu.read_byte(0), 0xf0);
    assert_eq!(emu.read_byte(0x200), 0);
}

#[test]
fn reset_returns_to_entry_state() {
    let mut emu = Emulator::new();
    emu.init(&vec![0x6a, 0x07]).unwrap();
    emu.decode_next().unwrap();
    emu.set_key(3, true).unwrap();
    emu.reset();
    assert_eq!(emu.pc(), 0x200);
    assert_eq!(emu.register(0xa), 0);
    assert_eq!(emu.read_byte(0x200), 0);
    assert!(emu.gfx_updated());
}

#[test]
fn set_key_rejects_out_of_range_index() {
    let mut emu = Emulator::new();
    assert_eq!(emu.set_key(15, true), Ok(()));
    assert_eq!(emu.set_key(16, true), Err(EmuError::InvalidKeyIndex));
}

#[test]
fn timer_tick_saturates_at_zero() {
    let mut emu = Emulator::new();
    emu.init(&vec![0xf0, 0x15, 0xf0, 0x18]).unwrap();
    emu.set_register(0, 1);
    emu.decode_next().unwrap();
    emu.decode_next().unwrap();
    assert_eq!(emu.delay_timer(), 1);
    assert_eq!(emu.sound_timer(), 1);
    emu.tick_timers();
    assert_eq!(emu.delay_timer(), 0);
    assert_eq!(emu.sound_timer(), 0);
    emu.tick_timers();
    assert_eq!(emu.delay_timer(), 0);
    assert_eq!(emu.sound_timer(), 0);
}

#[test]
fn timers_tick_independently() {
    let mut emu = Emulator::new();
    emu.init(&vec![0xf0, 0x15, 0xf1, 0x18]).unwrap();
    emu.set_register(0, 3);
    emu.set_register(1, 1);
    emu.decode_next().unwrap();
    emu.decode_next().unwrap();
    emu.tick_timers();
    emu.tick_timers();
    assert_eq!(emu.delay_timer(), 1);
    assert_eq!(emu.sound_timer(), 0);
}

#[test]
fn gfx_updated_tracks_drawing_steps() {
    let mut emu = Emulator::new();
    emu.init(&vec![0x6a, 0x07, 0x00, 0xe0]).unwrap();
    assert!(emu.gfx_updated());
    emu.decode_next().unwrap();
    assert!(!emu.gfx_updated());
    emu.decode_next().unwrap();
    assert!(emu.gfx_updated());
}
