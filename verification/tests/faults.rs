use chip8_core::{Emu, Fault};

fn machine(program: &[u8]) -> Emu {
    let mut emu = Emu::new();
    assert!(emu.load(program));
    emu
}

fn run(emu: &mut Emu, steps: usize) {
    for _ in 0..steps {
        assert_eq!(emu.try_tick(), Ok(()));
    }
}

/// A program that leaves `target` in the index register and then runs
/// `word`. The index register is built from V0 = 255 and V1 = the rest.
fn with_index(target: u16, word: [u8; 2]) -> (Emu, usize) {
    let mut program = vec![0x60, 0xFF, 0x62, 0x00, 0xF2, 0x29];
    let mut steps = 3;
    for _ in 0..target / 255 {
        program.extend_from_slice(&[0xF0, 0x1E]);
        steps += 1;
    }
    program.extend_from_slice(&[0x61, (target % 255) as u8, 0xF1, 0x1E]);
    steps += 2;
    program.extend_from_slice(&word);
    (machine(&program), steps)
}

fn fault_at_index(target: u16, word: [u8; 2]) -> Option<Fault> {
    let (mut emu, steps) = with_index(target, word);
    run(&mut emu, steps);
    assert_eq!(emu.index_register(), target);
    let fault = emu.fault();
    let pc = emu.program_counter();
    match fault {
        Some(f) => {
            assert_eq!(emu.try_tick(), Err(f));
            assert_eq!(emu.program_counter(), pc);
            assert_eq!(emu.index_register(), target);
        },
        None => {
            assert_eq!(emu.try_tick(), Ok(()));
        },
    }
    fault
}

#[test]
fn fresh_machine_has_no_fault() {
    let mut emu = Emu::new();
    assert_eq!(emu.fault(), None);
    assert_eq!(emu.try_tick(), Ok(()));
    assert_eq!(emu.program_counter(), 0x202);
}

#[test]
fn unimplemented_word_is_reported_with_the_word() {
    for word in [0xA123u16, 0x0123, 0x8008, 0x9001, 0xE000, 0xF0FF, 0xFFFF] {
        let mut emu = machine(&[(word >> 8) as u8, (word & 0xFF) as u8]);
        assert_eq!(emu.fault(), Some(Fault::Unimplemented { word }));
        assert_eq!(emu.try_tick(), Err(Fault::Unimplemented { word }));
        assert_eq!(emu.program_counter(), 0x200);
    }
}

#[test]
fn unimplemented_word_is_not_a_nop() {
    // V0 = 1, then a word outside the set, then V0 = 2
    let mut emu = machine(&[0x60, 0x01, 0xA0, 0x00, 0x60, 0x02]);
    run(&mut emu, 1);
    for _ in 0..3 {
        assert_eq!(emu.try_tick(), Err(Fault::Unimplemented { word: 0xA000 }));
    }
    assert_eq!(emu.program_counter(), 0x202);
    assert_eq!(emu.register(0), 1);
}

#[test]
fn reset_recovers_from_a_fault() {
    let mut emu = machine(&[0x00, 0xEE]);
    assert_eq!(emu.try_tick(), Err(Fault::StackUnderflow));
    emu.reset();
    assert_eq!(emu.fault(), None);
    assert_eq!(emu.try_tick(), Ok(()));
}

#[test]
fn program_counter_at_the_last_byte_is_a_fault() {
    let mut emu = machine(&[0x1F, 0xFF]);
    run(&mut emu, 1);
    assert_eq!(emu.program_counter(), 0xFFF);
    assert_eq!(emu.fault(), Some(Fault::ProgramCounterOutOfRange));
    assert_eq!(emu.try_tick(), Err(Fault::ProgramCounterOutOfRange));
    assert_eq!(emu.program_counter(), 0xFFF);
}

#[test]
fn program_counter_may_reach_the_last_word() {
    let mut emu = machine(&[0x1F, 0xFE]);
    run(&mut emu, 1);
    assert_eq!(emu.program_counter(), 0xFFE);
    assert_eq!(emu.fault(), None);
    run(&mut emu, 1);
    assert_eq!(emu.program_counter(), 0x1000);
    assert_eq!(emu.fault(), Some(Fault::ProgramCounterOutOfRange));
}

#[test]
fn last_word_of_the_largest_program_runs() {
    let mut program = vec![0u8; 3584];
    program[0] = 0x1F;
    program[1] = 0xFE;
    program[3582] = 0x6A;
    program[3583] = 0x5C;
    let mut emu = machine(&program);
    run(&mut emu, 2);
    assert_eq!(emu.register(0xA), 0x5C);
}

#[test]
fn key_above_15_is_a_fault() {
    for word in [[0xE0, 0x9E], [0xE0, 0xA1]] {
        let mut emu = machine(&[0x60, 0x10, word[0], word[1]]);
        run(&mut emu, 1);
        assert_eq!(emu.fault(), Some(Fault::KeyOutOfRange));
        assert_eq!(emu.try_tick(), Err(Fault::KeyOutOfRange));
        assert_eq!(emu.program_counter(), 0x202);

        let mut emu = machine(&[0x60, 0x0F, word[0], word[1]]);
        run(&mut emu, 1);
        assert_eq!(emu.fault(), None);

        let mut emu = machine(&[0x60, 0xFF, word[0], word[1]]);
        run(&mut emu, 1);
        assert_eq!(emu.fault(), Some(Fault::KeyOutOfRange));
    }
}

#[test]
fn decimal_cells_need_three_bytes() {
    assert_eq!(fault_at_index(4093, [0xF0, 0x33]), None);
    assert_eq!(fault_at_index(4094, [0xF0, 0x33]), Some(Fault::AddressOutOfRange));
    assert_eq!(fault_at_index(4095, [0xF0, 0x33]), Some(Fault::AddressOutOfRange));
    assert_eq!(fault_at_index(4096, [0xF0, 0x33]), Some(Fault::AddressOutOfRange));
}

#[test]
fn decimal_cells_reach_the_top_of_memory() {
    let (mut emu, steps) = with_index(4093, [0xF0, 0x33]);
    run(&mut emu, steps + 1);
    // V0 = 255
    assert_eq!(emu.memory(4093), 2);
    assert_eq!(emu.memory(4094), 5);
    assert_eq!(emu.memory(4095), 55);
}

#[test]
fn store_needs_room_for_every_register() {
    assert_eq!(fault_at_index(4095, [0xF0, 0x55]), None);
    assert_eq!(fault_at_index(4095, [0xF1, 0x55]), Some(Fault::AddressOutOfRange));
    assert_eq!(fault_at_index(4080, [0xFF, 0x55]), None);
    assert_eq!(fault_at_index(4081, [0xFF, 0x55]), Some(Fault::AddressOutOfRange));
    assert_eq!(fault_at_index(4096, [0xF0, 0x55]), Some(Fault::AddressOutOfRange));
}

#[test]
fn load_needs_room_for_every_register() {
    assert_eq!(fault_at_index(4095, [0xF0, 0x65]), None);
    assert_eq!(fault_at_index(4095, [0xF1, 0x65]), Some(Fault::AddressOutOfRange));
    assert_eq!(fault_at_index(4080, [0xFF, 0x65]), None);
    assert_eq!(fault_at_index(4081, [0xFF, 0x65]), Some(Fault::AddressOutOfRange));
}

#[test]
fn draw_needs_every_sprite_row_in_memory() {
    assert_eq!(fault_at_index(4095, [0xD0, 0x01]), None);
    assert_eq!(fault_at_index(4095, [0xD0, 0x02]), Some(Fault::AddressOutOfRange));
    assert_eq!(fault_at_index(4081, [0xD0, 0x0F]), None);
    assert_eq!(fault_at_index(4082, [0xD0, 0x0F]), Some(Fault::AddressOutOfRange));
    assert_eq!(fault_at_index(4096, [0xD0, 0x00]), None);
    assert_eq!(fault_at_index(4097, [0xD0, 0x00]), None);
    assert_eq!(fault_at_index(65535, [0xD0, 0x00]), None);
    assert_eq!(fault_at_index(4096, [0xD0, 0x01]), Some(Fault::AddressOutOfRange));
}

#[test]
fn index_beyond_memory_is_no_fault_until_it_is_used() {
    // the index register wraps to 254 after 258 additions of 255
    let (mut emu, steps) = with_index(5000, [0xF0, 0x1E]);
    run(&mut emu, steps);
    assert_eq!(emu.index_register(), 5000);
    assert_eq!(emu.fault(), None);
    run(&mut emu, 1);
    assert_eq!(emu.index_register(), 5255);
}

#[test]
fn a_faulting_step_changes_nothing() {
    let (mut emu, steps) = with_index(4095, [0xFF, 0x55]);
    run(&mut emu, steps);
    let registers: Vec<u8> = (0..16).map(|x| emu.register(x)).collect();
    let memory: Vec<u8> = (0..4096).map(|a| emu.memory(a)).collect();
    assert_eq!(emu.try_tick(), Err(Fault::AddressOutOfRange));
    assert_eq!((0..16).map(|x| emu.register(x)).collect::<Vec<u8>>(), registers);
    assert_eq!((0..4096).map(|a| emu.memory(a)).collect::<Vec<u8>>(), memory);
    assert_eq!(emu.stack_depth(), 0);
}
