use chip8_core::{decode, Instr};

#[test]
fn decodes_the_fixed_words() {
    assert_eq!(decode(0x0000), Some(Instr::Nop));
    assert_eq!(decode(0x00E0), Some(Instr::ClearScreen));
    assert_eq!(decode(0x00EE), Some(Instr::Return));
}

#[test]
fn decodes_jumps_and_calls() {
    assert_eq!(decode(0x1ABC), Some(Instr::Jump { addr: 0xABC }));
    assert_eq!(decode(0x1000), Some(Instr::Jump { addr: 0 }));
    assert_eq!(decode(0x2FFF), Some(Instr::Call { addr: 0xFFF }));
    assert_eq!(decode(0xB123), Some(Instr::JumpOffset { addr: 0x123 }));
}

#[test]
fn decodes_skips() {
    assert_eq!(decode(0x3A42), Some(Instr::SkipEqImm { x: 0xA, nn: 0x42 }));
    assert_eq!(decode(0x4B00), Some(Instr::SkipNeImm { x: 0xB, nn: 0x00 }));
    assert_eq!(decode(0x5120), Some(Instr::SkipEqReg { x: 1, y: 2 }));
    assert_eq!(decode(0x9EF0), Some(Instr::SkipNeReg { x: 0xE, y: 0xF }));
    assert_eq!(decode(0xE39E), Some(Instr::SkipKeyDown { x: 3 }));
    assert_eq!(decode(0xE4A1), Some(Instr::SkipKeyUp { x: 4 }));
}

#[test]
fn register_equality_skip_ignores_the_last_nibble() {
    assert_eq!(decode(0x5127), Some(Instr::SkipEqReg { x: 1, y: 2 }));
    assert_eq!(decode(0x5FFF), Some(Instr::SkipEqReg { x: 0xF, y: 0xF }));
}

#[test]
fn decodes_immediates() {
    assert_eq!(decode(0x6CFF), Some(Instr::LoadImm { x: 0xC, nn: 0xFF }));
    assert_eq!(decode(0x7D01), Some(Instr::AddImm { x: 0xD, nn: 0x01 }));
    assert_eq!(decode(0xC50F), Some(Instr::Random { x: 5, nn: 0x0F }));
}

#[test]
fn decodes_register_arithmetic() {
    assert_eq!(decode(0x8120), Some(Instr::Move { x: 1, y: 2 }));
    assert_eq!(decode(0x8121), Some(Instr::Or { x: 1, y: 2 }));
    assert_eq!(decode(0x8122), Some(Instr::And { x: 1, y: 2 }));
    assert_eq!(decode(0x8123), Some(Instr::Xor { x: 1, y: 2 }));
    assert_eq!(decode(0x8124), Some(Instr::AddReg { x: 1, y: 2 }));
    assert_eq!(decode(0x8125), Some(Instr::SubReg { x: 1, y: 2 }));
    assert_eq!(decode(0x8126), Some(Instr::ShiftRight { x: 1 }));
    assert_eq!(decode(0x8127), Some(Instr::SubRev { x: 1, y: 2 }));
    assert_eq!(decode(0x812E), Some(Instr::ShiftLeft { x: 1 }));
}

#[test]
fn decodes_draw() {
    assert_eq!(decode(0xD125), Some(Instr::Draw { x: 1, y: 2, rows: 5 }));
    assert_eq!(decode(0xDFE0), Some(Instr::Draw { x: 0xF, y: 0xE, rows: 0 }));
    assert_eq!(decode(0xD00F), Some(Instr::Draw { x: 0, y: 0, rows: 15 }));
}

#[test]
fn decodes_timer_index_and_memory_words() {
    assert_eq!(decode(0xF107), Some(Instr::LoadDelay { x: 1 }));
    assert_eq!(decode(0xF20A), Some(Instr::WaitKey { x: 2 }));
    assert_eq!(decode(0xF315), Some(Instr::SetDelay { x: 3 }));
    assert_eq!(decode(0xF418), Some(Instr::SetSound { x: 4 }));
    assert_eq!(decode(0xF51E), Some(Instr::AddIndex { x: 5 }));
    assert_eq!(decode(0xF629), Some(Instr::FontAddr { x: 6 }));
    assert_eq!(decode(0xF733), Some(Instr::Bcd { x: 7 }));
    assert_eq!(decode(0xF855), Some(Instr::Store { x: 8 }));
    assert_eq!(decode(0xF965), Some(Instr::Load { x: 9 }));
}

#[test]
fn rejects_words_outside_the_set() {
    for word in [
        0x0001u16, 0x00E1, 0x00EF, 0x0100, 0x0FFF, 0x8008, 0x8129, 0x812A, 0x812D, 0x812F, 0x9001,
        0x912F, 0xA000, 0xA123, 0xAFFF, 0xE000, 0xE19F, 0xE1A0, 0xE09D, 0xF000, 0xF108, 0xF10B,
        0xF11F, 0xF130, 0xF156, 0xF166, 0xF1FF,
    ] {
        assert_eq!(decode(word), None);
    }
}

#[test]
fn every_word_decodes_to_registers_below_16() {
    let mut known: u32 = 0;
    for word in 0..=0xFFFFu16 {
        if let Some(ins) = decode(word) {
            known += 1;
            let (x, y) = match ins {
                Instr::SkipEqImm { x, .. }
                | Instr::SkipNeImm { x, .. }
                | Instr::LoadImm { x, .. }
                | Instr::AddImm { x, .. }
                | Instr::Random { x, .. }
                | Instr::ShiftRight { x }
                | Instr::ShiftLeft { x }
                | Instr::SkipKeyDown { x }
                | Instr::SkipKeyUp { x }
                | Instr::LoadDelay { x }
                | Instr::WaitKey { x }
                | Instr::SetDelay { x }
                | Instr::SetSound { x }
                | Instr::AddIndex { x }
                | Instr::FontAddr { x }
                | Instr::Bcd { x }
                | Instr::Store { x }
                | Instr::Load { x } => (x, 0),
                Instr::SkipEqReg { x, y }
                | Instr::Move { x, y }
                | Instr::Or { x, y }
                | Instr::And { x, y }
                | Instr::Xor { x, y }
                | Instr::AddReg { x, y }
                | Instr::SubReg { x, y }
                | Instr::SubRev { x, y }
                | Instr::SkipNeReg { x, y }
                | Instr::Draw { x, y, .. } => (x, y),
                _ => (0, 0),
            };
            assert!(x < 16 && y < 16);
        }
    }
    // 3 fixed words; 10 families of 4096 words (1 to 7 with 5 taking any
    // last nibble, B, C, D); 9 of 16 last nibbles in family 8; 1 in family 9;
    // 2 low bytes in family E and 9 in family F, for each of 16 registers.
    assert_eq!(known, 3 + 10 * 4096 + 9 * 256 + 256 + 2 * 16 + 9 * 16);
}
