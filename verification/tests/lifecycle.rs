use chip8_core::font::FONTSET;
use chip8_core::{Emu, SCREEN_HEIGHT, SCREEN_WIDTH};

fn step(emu: &mut Emu) {
    assert_eq!(emu.try_tick(), Ok(()));
}

fn assert_initial(emu: &Emu) {
    assert_eq!(emu.program_counter(), 0x200);
    assert_eq!(emu.index_register(), 0);
    assert_eq!(emu.stack_depth(), 0);
    assert_eq!(emu.delay_timer(), 0);
    assert_eq!(emu.sound_timer(), 0);
    for x in 0..16 {
        assert_eq!(emu.register(x), 0);
    }
    for addr in 0..80 {
        assert_eq!(emu.memory(addr), FONTSET[addr]);
    }
    for addr in 80..4096 {
        assert_eq!(emu.memory(addr), 0);
    }
    assert!(emu.display().iter().all(|cell| !*cell));
}

#[test]
fn display_is_64_by_32() {
    assert_eq!(SCREEN_WIDTH, 64);
    assert_eq!(SCREEN_HEIGHT, 32);
    assert_eq!(Emu::new().display().len(), 2048);
}

#[test]
fn new_machine_is_in_initial_state() {
    assert_initial(&Emu::new());
}

#[test]
fn new_machine_holds_the_glyphs() {
    let emu = Emu::new();
    let zero = [0xF0, 0x90, 0x90, 0x90, 0xF0];
    let seven = [0xF0, 0x10, 0x20, 0x40, 0x40];
    let eff = [0xF0, 0x80, 0xF0, 0x80, 0x80];
    for row in 0..5 {
        assert_eq!(emu.memory(row), zero[row]);
        assert_eq!(emu.memory(5 * 7 + row), seven[row]);
        assert_eq!(emu.memory(5 * 15 + row), eff[row]);
    }
}

#[test]
fn reset_restores_initial_state() {
    let mut emu = Emu::new();
    // V0 = 7, V1 = 3, delay = V0, sound = V1, glyph address, draw, call
    assert!(emu.load(&[
        0x60, 0x07, 0x61, 0x03, 0xF0, 0x15, 0xF1, 0x18, 0xF0, 0x29, 0xD0, 0x15, 0x22, 0x0E,
    ]));
    for _ in 0..7 {
        step(&mut emu);
    }
    emu.set_key(4, true);
    assert_eq!(emu.program_counter(), 0x20E);
    assert_eq!(emu.stack_depth(), 1);
    assert_eq!(emu.delay_timer(), 7);
    assert_eq!(emu.sound_timer(), 3);
    assert_eq!(emu.index_register(), 35);
    assert!(emu.display().iter().any(|cell| *cell));
    emu.reset();
    assert_initial(&emu);
    // The key is released too: waiting for a key does not move on.
    assert!(emu.load(&[0xF0, 0x0A]));
    step(&mut emu);
    assert_eq!(emu.program_counter(), 0x200);
}

#[test]
fn reset_is_idempotent() {
    let mut emu = Emu::new();
    emu.reset();
    assert_initial(&emu);
    emu.reset();
    assert_initial(&emu);
}

#[test]
fn load_places_bytes_at_0x200() {
    let mut emu = Emu::new();
    assert!(emu.load(&[0x12, 0x34, 0x56]));
    assert_eq!(emu.memory(0x1FF), 0);
    assert_eq!(emu.memory(0x200), 0x12);
    assert_eq!(emu.memory(0x201), 0x34);
    assert_eq!(emu.memory(0x202), 0x56);
    assert_eq!(emu.memory(0x203), 0);
    assert_eq!(emu.program_counter(), 0x200);
    for addr in 0..80 {
        assert_eq!(emu.memory(addr), FONTSET[addr]);
    }
}

#[test]
fn load_of_nothing_changes_nothing() {
    let mut emu = Emu::new();
    assert!(emu.load(&[]));
    assert_initial(&emu);
}

#[test]
fn load_takes_the_largest_program() {
    let mut emu = Emu::new();
    let mut program = vec![0xAAu8; 3584];
    program[0] = 0x11;
    program[3583] = 0x99;
    assert!(emu.load(&program));
    assert_eq!(emu.memory(0x200), 0x11);
    assert_eq!(emu.memory(0x201), 0xAA);
    assert_eq!(emu.memory(4095), 0x99);
    assert_eq!(emu.memory(0x1FF), 0);
}

#[test]
fn load_refuses_a_program_that_does_not_fit() {
    let mut emu = Emu::new();
    assert!(emu.load(&[0x60, 0x01]));
    let program = vec![0xFFu8; 3585];
    assert!(!emu.load(&program));
    assert_eq!(emu.memory(0x200), 0x60);
    assert_eq!(emu.memory(0x201), 0x01);
    assert_eq!(emu.memory(0x202), 0);
    assert_eq!(emu.memory(4095), 0);
    assert_eq!(emu.memory(79), FONTSET[79]);
}

#[test]
fn second_load_overwrites_only_its_length() {
    let mut emu = Emu::new();
    assert!(emu.load(&[1, 2, 3, 4]));
    assert!(emu.load(&[9, 8]));
    assert_eq!(emu.memory(0x200), 9);
    assert_eq!(emu.memory(0x201), 8);
    assert_eq!(emu.memory(0x202), 3);
    assert_eq!(emu.memory(0x203), 4);
}

#[test]
fn timers_count_down_and_stop_at_zero() {
    let mut emu = Emu::new();
    // V0 = 3, V1 = 1, delay = V0, sound = V1
    assert!(emu.load(&[0x60, 0x03, 0x61, 0x01, 0xF0, 0x15, 0xF1, 0x18]));
    for _ in 0..4 {
        step(&mut emu);
    }
    assert_eq!((emu.delay_timer(), emu.sound_timer()), (3, 1));
    emu.tick_timers();
    assert_eq!((emu.delay_timer(), emu.sound_timer()), (2, 0));
    emu.tick_timers();
    assert_eq!((emu.delay_timer(), emu.sound_timer()), (1, 0));
    emu.tick_timers();
    assert_eq!((emu.delay_timer(), emu.sound_timer()), (0, 0));
    emu.tick_timers();
    assert_eq!((emu.delay_timer(), emu.sound_timer()), (0, 0));
}

#[test]
fn timer_tick_touches_nothing_else() {
    let mut emu = Emu::new();
    assert!(emu.load(&[0x60, 0xFF, 0xF0, 0x15, 0xF0, 0x18]));
    for _ in 0..3 {
        step(&mut emu);
    }
    emu.tick_timers();
    assert_eq!(emu.delay_timer(), 254);
    assert_eq!(emu.sound_timer(), 254);
    assert_eq!(emu.program_counter(), 0x206);
    assert_eq!(emu.register(0), 0xFF);
    assert_eq!(emu.index_register(), 0);
    assert_eq!(emu.stack_depth(), 0);
    assert_eq!(emu.memory(0x200), 0x60);
}

#[test]
fn instructions_do_not_count_the_timers_down() {
    let mut emu = Emu::new();
    // V0 = 9, delay = V0, sound = V0, then three more instructions
    assert!(emu.load(&[0x60, 0x09, 0xF0, 0x15, 0xF0, 0x18, 0x61, 0x01, 0x71, 0x01, 0x00, 0xE0]));
    for _ in 0..6 {
        step(&mut emu);
    }
    assert_eq!(emu.delay_timer(), 9);
    assert_eq!(emu.sound_timer(), 9);
}

#[test]
fn set_key_presses_and_releases() {
    let mut emu = Emu::new();
    // V0 = 0xF; skip if key V0 is down; (skipped) V1 = 1; jump back to 0x202
    assert!(emu.load(&[0x60, 0x0F, 0xE0, 0x9E, 0x12, 0x02, 0x12, 0x02]));
    step(&mut emu);
    step(&mut emu);
    assert_eq!(emu.program_counter(), 0x204);
    step(&mut emu);
    emu.set_key(15, true);
    step(&mut emu);
    assert_eq!(emu.program_counter(), 0x206);
    step(&mut emu);
    emu.set_key(15, false);
    step(&mut emu);
    assert_eq!(emu.program_counter(), 0x204);
}

#[test]
fn pixel_reads_the_row_major_display() {
    let mut emu = Emu::new();
    // V0 = 2 (row), V1 = 5 (column), draw one row of glyph 0
    assert!(emu.load(&[0x60, 0x02, 0x61, 0x05, 0xD0, 0x11]));
    for _ in 0..3 {
        step(&mut emu);
    }
    for y in 0..32 {
        for x in 0..64 {
            let on = y == 2 && (5..9).contains(&x);
            assert_eq!(emu.pixel(x, y), on);
            assert_eq!(emu.display()[x + 64 * y], on);
        }
    }
}
