use chiprust8::errors::{DecodeError, ExecError, LoadError};
use chiprust8::instrs::{
    Chip8DoubleRegImmOp, Chip8DoubleRegOp, Chip8ExtraInstr, Chip8Instr, Chip8KeyConditionalInstr,
    Chip8LongImmOp, Chip8MathInstr, Chip8NoArgsOp, Chip8SingleRegImmOp, Chip8SingleRegOp,
};
use chiprust8::machine::Chip8;

#[test]
fn test_initial_state() {
    let chip8 = Chip8::new(true);
    assert_eq!(chip8.regs.pc, 0x200);
    assert_eq!(chip8.regs.index_reg, 0);
    assert_eq!(chip8.stack.len(), 0);
    assert_eq!(chip8.mem.memspace.len(), 4096);
    // The glyph for hex digit 1 sits five bytes in.
    assert_eq!(chip8.mem.memspace[5], 0x20);
    // Everything above the font is zeroed.
    assert!(chip8.mem.memspace[80..].iter().all(|&b| b == 0));
    assert!(chip8.disp.pixels.iter().all(|&p| !p));
    assert!(chip8.keys.iter().all(|&k| !k));
}

#[test]
fn test_load_program() {
    let mut chip8 = Chip8::new(true);
    let prog: Vec<u8> = vec![0x61, 0x42, 0x12, 0x00];
    assert_eq!(chip8.load_program(&prog), Ok(()));
    assert_eq!(&chip8.mem.memspace[0x200..0x204], &prog[..]);
    assert_eq!(chip8.mem.memspace[0x204], 0);
}

#[test]
fn test_load_program_too_large() {
    let mut chip8 = Chip8::new(true);
    let prog: Vec<u8> = vec![0xAB; 4096 - 0x200 + 1];
    assert_eq!(chip8.load_program(&prog), Err(LoadError::TooLarge));
    // Memory is untouched on failure.
    assert!(chip8.mem.memspace[0x200..].iter().all(|&b| b == 0));
    let just_fits: Vec<u8> = vec![0xAB; 4096 - 0x200];
    assert_eq!(chip8.load_program(&just_fits), Ok(()));
    assert_eq!(chip8.mem.memspace[4095], 0xAB);
}

#[test]
fn test_step_executes_loaded_program() {
    let mut chip8 = Chip8::new(true);
    // V1 <- 0x42, then V1 += 1.
    let prog: Vec<u8> = vec![0x61, 0x42, 0x71, 0x01];
    chip8.load_program(&prog).unwrap();
    assert_eq!(chip8.step(), Ok(()));
    assert_eq!(chip8.regs.pc, 0x202);
    assert_eq!(chip8.get_reg(1), 0x42);
    assert_eq!(chip8.step(), Ok(()));
    assert_eq!(chip8.regs.pc, 0x204);
    assert_eq!(chip8.get_reg(1), 0x43);
}

#[test]
fn test_tick_reports_decode_error() {
    let mut chip8 = Chip8::new(true);
    // Memory at the program counter is zeroed: word 0x0000 names no opcode.
    assert_eq!(
        chip8.tick(),
        Err(ExecError::Decode(DecodeError::UnknownSysOp(0)))
    );
    // A failed decode leaves the machine unchanged.
    assert_eq!(chip8.regs.pc, 0x200);
}

#[test]
fn test_return_underflow() {
    let mut chip8 = Chip8::new(true);
    let r = chip8.execute(Chip8Instr::Return(Chip8NoArgsOp {}));
    assert_eq!(r, Err(ExecError::StackUnderflow));
}

#[test]
fn test_call_then_return() {
    let mut chip8 = Chip8::new(true);
    chip8.regs.pc = 12;
    chip8
        .execute(Chip8Instr::Call(Chip8LongImmOp { imm: 0x234 }))
        .unwrap();
    assert_eq!(chip8.regs.pc, 0x234);
    assert_eq!(chip8.stack.len(), 1);
    assert_eq!(chip8.stack[0], 14);
    chip8.execute(Chip8Instr::Return(Chip8NoArgsOp {})).unwrap();
    assert_eq!(chip8.regs.pc, 14);
    assert_eq!(chip8.stack.len(), 0);
}

#[test]
fn test_clear_display() {
    let mut chip8 = Chip8::new(true);
    chip8.regs.index_reg = 0; // the glyph for 0
    chip8.set_reg(0, 1);
    chip8.set_reg(1, 1);
    chip8
        .execute(Chip8Instr::Draw(Chip8DoubleRegImmOp { a: 0, b: 1, imm: 5 }))
        .unwrap();
    assert!(chip8.disp.pixels.iter().any(|&p| p));
    chip8.execute(Chip8Instr::Clear(Chip8NoArgsOp {})).unwrap();
    assert!(chip8.disp.pixels.iter().all(|&p| !p));
}

#[test]
fn test_draw_twice_restores_pixels() {
    let mut chip8 = Chip8::new(true);
    let before = chip8.framebuffer_snapshot();
    chip8.regs.index_reg = 0; // the glyph for 0
    chip8.set_reg(0, 3);
    chip8.set_reg(1, 2);
    let draw = Chip8Instr::Draw(Chip8DoubleRegImmOp { a: 0, b: 1, imm: 5 });
    chip8.execute(draw).unwrap();
    assert!(chip8.disp.pixels.iter().any(|&p| p));
    chip8.execute(draw).unwrap();
    let after = chip8.framebuffer_snapshot();
    assert_eq!(before.pixels, after.pixels);
}

#[test]
fn test_draw_wraps_origin_and_drops_overflow() {
    let mut chip8 = Chip8::new(true);
    // An origin of (64, 32) wraps once to (0, 0).
    chip8.regs.index_reg = 0;
    chip8.set_reg(0, 64);
    chip8.set_reg(1, 32);
    chip8
        .execute(Chip8Instr::Draw(Chip8DoubleRegImmOp { a: 0, b: 1, imm: 1 }))
        .unwrap();
    // The glyph row 0xF0 sets the four leftmost pixels of row 0.
    assert_eq!(&chip8.disp.pixels[0..5], &[true, true, true, true, false]);

    // An origin of (62, 31) is in range: columns past the right edge and
    // rows below the bottom edge are dropped, not wrapped.
    let mut chip8 = Chip8::new(true);
    chip8.regs.index_reg = 0;
    chip8.set_reg(0, 62);
    chip8.set_reg(1, 31);
    chip8
        .execute(Chip8Instr::Draw(Chip8DoubleRegImmOp { a: 0, b: 1, imm: 5 }))
        .unwrap();
    let last_row = 31 * 64;
    assert!(chip8.disp.pixels[last_row + 62]);
    assert!(chip8.disp.pixels[last_row + 63]);
    // Nothing wrapped onto the left edge or the top rows.
    assert!(!chip8.disp.pixels[last_row]);
    assert!(!chip8.disp.pixels[0]);
}

#[test]
fn test_rel_jump_modes() {
    // P8: same immediate, same registers; V0 differs from V2 (the register
    // named in the immediate's top nibble), so the two modes disagree.
    let imm: u16 = 0x234;
    let mut legacy = Chip8::new(true);
    legacy.set_reg(0, 5);
    legacy.set_reg(2, 9);
    legacy
        .execute(Chip8Instr::RelJump(Chip8LongImmOp { imm }))
        .unwrap();
    assert_eq!(legacy.regs.pc, 0x234 + 5);

    let mut modern = Chip8::new(false);
    modern.set_reg(0, 5);
    modern.set_reg(2, 9);
    modern
        .execute(Chip8Instr::RelJump(Chip8LongImmOp { imm }))
        .unwrap();
    assert_eq!(modern.regs.pc, 0x234 + 9);
    assert_ne!(legacy.regs.pc, modern.regs.pc);
}

#[test]
fn test_shifts_both_modes() {
    // Legacy: the source is Vb; modern: the source is Va.
    let mut legacy = Chip8::new(true);
    legacy.set_reg(1, 0x00);
    legacy.set_reg(2, 0x85);
    legacy
        .execute(Chip8Instr::Math(Chip8MathInstr::RightShift(
            Chip8DoubleRegOp { a: 1, b: 2 },
        )))
        .unwrap();
    assert_eq!(legacy.get_reg(1), 0x85 >> 1);
    assert_eq!(legacy.get_reg(0xF), 1);

    let mut modern = Chip8::new(false);
    modern.set_reg(1, 0x84);
    modern.set_reg(2, 0x05);
    modern
        .execute(Chip8Instr::Math(Chip8MathInstr::RightShift(
            Chip8DoubleRegOp { a: 1, b: 2 },
        )))
        .unwrap();
    assert_eq!(modern.get_reg(1), 0x84 >> 1);
    assert_eq!(modern.get_reg(0xF), 0);

    let mut left = Chip8::new(false);
    left.set_reg(1, 0x85);
    left.execute(Chip8Instr::Math(Chip8MathInstr::LeftShift(
        Chip8DoubleRegOp { a: 1, b: 2 },
    )))
    .unwrap();
    assert_eq!(left.get_reg(1), 0x0A);
    assert_eq!(left.get_reg(0xF), 1);
}

#[test]
fn test_key_conditionals() {
    let mut chip8 = Chip8::new(true);
    chip8.set_reg(3, 7);
    chip8.set_key(7, true);
    let pc = chip8.regs.pc;
    chip8
        .execute(Chip8Instr::Key(Chip8KeyConditionalInstr::KeyPressed(
            Chip8SingleRegOp { reg: 3 },
        )))
        .unwrap();
    assert_eq!(chip8.regs.pc, pc + 4, "pressed key skips");

    chip8.set_key(7, false);
    let pc = chip8.regs.pc;
    chip8
        .execute(Chip8Instr::Key(Chip8KeyConditionalInstr::KeyPressed(
            Chip8SingleRegOp { reg: 3 },
        )))
        .unwrap();
    assert_eq!(chip8.regs.pc, pc + 2, "released key does not skip");

    let pc = chip8.regs.pc;
    chip8
        .execute(Chip8Instr::Key(Chip8KeyConditionalInstr::KeyNotPressed(
            Chip8SingleRegOp { reg: 3 },
        )))
        .unwrap();
    assert_eq!(chip8.regs.pc, pc + 4, "released key skips the not-pressed form");
}

#[test]
fn test_wait_for_key() {
    let mut chip8 = Chip8::new(true);
    chip8.set_reg(3, 7);
    let pc = chip8.regs.pc;
    chip8
        .execute(Chip8Instr::Extra(Chip8ExtraInstr::WaitForKey(
            Chip8SingleRegOp { reg: 3 },
        )))
        .unwrap();
    assert_eq!(chip8.regs.pc, pc, "not pressed: the counter is rewound");

    chip8.set_key(7, true);
    chip8
        .execute(Chip8Instr::Extra(Chip8ExtraInstr::WaitForKey(
            Chip8SingleRegOp { reg: 3 },
        )))
        .unwrap();
    assert_eq!(chip8.regs.pc, pc + 2, "pressed: execution moves on");
}

#[test]
fn test_timers() {
    let mut chip8 = Chip8::new(true);
    chip8.set_reg(4, 2);
    chip8
        .execute(Chip8Instr::Extra(Chip8ExtraInstr::SetDelay(
            Chip8SingleRegOp { reg: 4 },
        )))
        .unwrap();
    chip8.set_reg(5, 1);
    chip8
        .execute(Chip8Instr::Extra(Chip8ExtraInstr::SetBuzzer(
            Chip8SingleRegOp { reg: 5 },
        )))
        .unwrap();
    assert_eq!(chip8.timers.delay, 2);
    assert_eq!(chip8.timers.sound, 1);

    chip8.tick_timers();
    assert_eq!(chip8.timers.delay, 1);
    assert_eq!(chip8.timers.sound, 0);
    chip8.tick_timers();
    assert_eq!(chip8.timers.delay, 0);
    assert_eq!(chip8.timers.sound, 0, "a zero timer stays at zero");

    chip8
        .execute(Chip8Instr::Extra(Chip8ExtraInstr::CheckDelay(
            Chip8SingleRegOp { reg: 6 },
        )))
        .unwrap();
    assert_eq!(chip8.get_reg(6), 0);
}

#[test]
fn test_incr_index() {
    let mut chip8 = Chip8::new(true);
    chip8.regs.index_reg = 0x0FFE;
    chip8.set_reg(1, 4);
    chip8
        .execute(Chip8Instr::Extra(Chip8ExtraInstr::IncrIndex(
            Chip8SingleRegOp { reg: 1 },
        )))
        .unwrap();
    assert_eq!(chip8.regs.index_reg, 0x1002);
    assert_eq!(chip8.get_reg(0xF), 0);

    chip8.regs.index_reg = 0xFFFF;
    chip8.set_reg(1, 2);
    chip8
        .execute(Chip8Instr::Extra(Chip8ExtraInstr::IncrIndex(
            Chip8SingleRegOp { reg: 1 },
        )))
        .unwrap();
    assert_eq!(chip8.regs.index_reg, 1, "the add wraps past 0xFFFF");
    assert_eq!(chip8.get_reg(0xF), 1);
}

#[test]
fn test_set_index_hex() {
    let mut chip8 = Chip8::new(true);
    chip8.set_reg(2, 0xA);
    chip8
        .execute(Chip8Instr::Extra(Chip8ExtraInstr::SetIndexHex(
            Chip8SingleRegOp { reg: 2 },
        )))
        .unwrap();
    // Five bytes per glyph: the glyph for A starts at 50.
    assert_eq!(chip8.regs.index_reg, 50);
}

#[test]
fn test_bcd() {
    let mut chip8 = Chip8::new(true);
    chip8.set_reg(3, 234);
    chip8.regs.index_reg = 0x300;
    chip8
        .execute(Chip8Instr::Extra(Chip8ExtraInstr::BcdReg(
            Chip8SingleRegOp { reg: 3 },
        )))
        .unwrap();
    assert_eq!(&chip8.mem.memspace[0x300..0x303], &[2, 3, 4]);

    chip8.set_reg(3, 7);
    chip8
        .execute(Chip8Instr::Extra(Chip8ExtraInstr::BcdReg(
            Chip8SingleRegOp { reg: 3 },
        )))
        .unwrap();
    assert_eq!(&chip8.mem.memspace[0x300..0x303], &[0, 0, 7]);
}

#[test]
fn test_save_load_reg_range() {
    let mut chip8 = Chip8::new(true);
    chip8.set_reg(0, 11);
    chip8.set_reg(1, 22);
    chip8.set_reg(2, 33);
    chip8.set_reg(3, 44);
    chip8.regs.index_reg = 0x300;
    chip8
        .execute(Chip8Instr::Extra(Chip8ExtraInstr::SaveRegRange(
            Chip8SingleRegOp { reg: 2 },
        )))
        .unwrap();
    // V0 through V2 inclusive; V3 is not stored.
    assert_eq!(&chip8.mem.memspace[0x300..0x304], &[11, 22, 33, 0]);
    // The index register itself is not advanced.
    assert_eq!(chip8.regs.index_reg, 0x300);

    let mut fresh = Chip8::new(true);
    fresh.mem.memspace[0x300..0x304].copy_from_slice(&[11, 22, 33, 44]);
    fresh.regs.index_reg = 0x300;
    fresh
        .execute(Chip8Instr::Extra(Chip8ExtraInstr::LoadRegRange(
            Chip8SingleRegOp { reg: 2 },
        )))
        .unwrap();
    assert_eq!(fresh.get_reg(0), 11);
    assert_eq!(fresh.get_reg(1), 22);
    assert_eq!(fresh.get_reg(2), 33);
    assert_eq!(fresh.get_reg(3), 0, "V3 is past the inclusive range");
    assert_eq!(fresh.regs.index_reg, 0x300);
}

#[test]
fn test_random_masked() {
    let mut chip8 = Chip8::new(true);
    for _ in 0..32 {
        chip8
            .execute(Chip8Instr::Random(Chip8SingleRegImmOp {
                reg: 1,
                imm: 0x0F,
            }))
            .unwrap();
        assert_eq!(chip8.get_reg(1) & !0x0F, 0, "the draw is masked");
    }
    chip8
        .execute(Chip8Instr::Random(Chip8SingleRegImmOp { reg: 1, imm: 0 }))
        .unwrap();
    assert_eq!(chip8.get_reg(1), 0);
}

#[test]
fn test_set_key_bounds_and_snapshot() {
    let mut chip8 = Chip8::new(true);
    chip8.set_key(0, true);
    chip8.set_key(15, true);
    assert!(chip8.keys[0]);
    assert!(chip8.keys[15]);
    assert!(!chip8.keys[7]);
    let snap = chip8.framebuffer_snapshot();
    assert_eq!(snap.pixels.len(), 64 * 32);
    assert_eq!(snap.pixels, chip8.disp.pixels);
}

#[test]
fn test_dbg_display_renders_rows() {
    let mut chip8 = Chip8::new(true);
    let blank = chip8.dbg_display();
    assert_eq!(blank.lines().count(), 32);
    assert!(blank.lines().all(|l| l.len() == 64 && l.chars().all(|c| c == ' ')));

    chip8.regs.index_reg = 0;
    chip8.set_reg(0, 0);
    chip8.set_reg(1, 0);
    chip8
        .execute(Chip8Instr::Draw(Chip8DoubleRegImmOp { a: 0, b: 1, imm: 1 }))
        .unwrap();
    let drawn = chip8.dbg_display();
    let first = drawn.lines().next().unwrap();
    assert!(first.starts_with("####"));
    assert_eq!(&first[4..8], "    ");
}

#[test]
fn test_math_assign_to_flag_register() {
    // When the destination is VF itself, the arithmetic result wins over the
    // carry flag.
    let mut chip8 = Chip8::new(true);
    chip8.set_reg(0xF, 200);
    chip8.set_reg(6, 100);
    chip8
        .execute(Chip8Instr::Math(Chip8MathInstr::IncrBy(Chip8DoubleRegOp {
            a: 0xF,
            b: 6,
        })))
        .unwrap();
    assert_eq!(chip8.get_reg(0xF), 44, "200 + 100 wraps to 44 and lands in VF");
}
