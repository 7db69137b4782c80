use chiprust8::errors::DecodeError;
use chiprust8::instrs::{
    Chip8DoubleRegImmOp, Chip8DoubleRegOp, Chip8ExtraInstr, Chip8Instr, Chip8KeyConditionalInstr,
    Chip8LongImmOp, Chip8MathInstr, Chip8NoArgsOp, Chip8SingleRegImmOp, Chip8SingleRegOp,
};

#[test]
fn test_decode_families() {
    assert_eq!(
        Chip8Instr::from_u16(0x00E0),
        Ok(Chip8Instr::Clear(Chip8NoArgsOp {}))
    );
    assert_eq!(
        Chip8Instr::from_u16(0x00EE),
        Ok(Chip8Instr::Return(Chip8NoArgsOp {}))
    );
    assert_eq!(
        Chip8Instr::from_u16(0x1234),
        Ok(Chip8Instr::Jump(Chip8LongImmOp { imm: 0x234 }))
    );
    assert_eq!(
        Chip8Instr::from_u16(0x2ABC),
        Ok(Chip8Instr::Call(Chip8LongImmOp { imm: 0xABC }))
    );
    assert_eq!(
        Chip8Instr::from_u16(0x3142),
        Ok(Chip8Instr::SkipImmEq(Chip8SingleRegImmOp {
            reg: 1,
            imm: 0x42
        }))
    );
    assert_eq!(
        Chip8Instr::from_u16(0x4517),
        Ok(Chip8Instr::SkipImmNe(Chip8SingleRegImmOp {
            reg: 5,
            imm: 0x17
        }))
    );
    assert_eq!(
        Chip8Instr::from_u16(0x5230),
        Ok(Chip8Instr::SkipRegEq(Chip8DoubleRegOp { a: 2, b: 3 }))
    );
    assert_eq!(
        Chip8Instr::from_u16(0x6799),
        Ok(Chip8Instr::RegAssign(Chip8SingleRegImmOp {
            reg: 7,
            imm: 0x99
        }))
    );
    assert_eq!(
        Chip8Instr::from_u16(0x7801),
        Ok(Chip8Instr::RegIncr(Chip8SingleRegImmOp { reg: 8, imm: 1 }))
    );
    assert_eq!(
        Chip8Instr::from_u16(0x9340),
        Ok(Chip8Instr::SkipRegNe(Chip8DoubleRegOp { a: 3, b: 4 }))
    );
    assert_eq!(
        Chip8Instr::from_u16(0xA123),
        Ok(Chip8Instr::SetIndex(Chip8LongImmOp { imm: 0x123 }))
    );
    assert_eq!(
        Chip8Instr::from_u16(0xB456),
        Ok(Chip8Instr::RelJump(Chip8LongImmOp { imm: 0x456 }))
    );
    assert_eq!(
        Chip8Instr::from_u16(0xC2F0),
        Ok(Chip8Instr::Random(Chip8SingleRegImmOp {
            reg: 2,
            imm: 0xF0
        }))
    );
    assert_eq!(
        Chip8Instr::from_u16(0xD125),
        Ok(Chip8Instr::Draw(Chip8DoubleRegImmOp { a: 1, b: 2, imm: 5 }))
    );
}

#[test]
fn test_decode_math_family() {
    let cases: Vec<(u16, Chip8MathInstr)> = vec![
        (0x8120, Chip8MathInstr::Assign(Chip8DoubleRegOp { a: 1, b: 2 })),
        (0x8121, Chip8MathInstr::Or(Chip8DoubleRegOp { a: 1, b: 2 })),
        (0x8122, Chip8MathInstr::And(Chip8DoubleRegOp { a: 1, b: 2 })),
        (0x8123, Chip8MathInstr::Xor(Chip8DoubleRegOp { a: 1, b: 2 })),
        (0x8124, Chip8MathInstr::IncrBy(Chip8DoubleRegOp { a: 1, b: 2 })),
        (0x8125, Chip8MathInstr::DecrBy(Chip8DoubleRegOp { a: 1, b: 2 })),
        (0x8126, Chip8MathInstr::RightShift(Chip8DoubleRegOp { a: 1, b: 2 })),
        (0x8127, Chip8MathInstr::InvDecrBy(Chip8DoubleRegOp { a: 1, b: 2 })),
        (0x812E, Chip8MathInstr::LeftShift(Chip8DoubleRegOp { a: 1, b: 2 })),
    ];
    for (word, mi) in cases {
        assert_eq!(Chip8Instr::from_u16(word), Ok(Chip8Instr::Math(mi)));
    }
}

#[test]
fn test_decode_key_and_extra_families() {
    assert_eq!(
        Chip8Instr::from_u16(0xE39E),
        Ok(Chip8Instr::Key(Chip8KeyConditionalInstr::KeyNotPressed(
            Chip8SingleRegOp { reg: 3 }
        )))
    );
    assert_eq!(
        Chip8Instr::from_u16(0xE3A1),
        Ok(Chip8Instr::Key(Chip8KeyConditionalInstr::KeyPressed(
            Chip8SingleRegOp { reg: 3 }
        )))
    );
    let cases: Vec<(u16, Chip8ExtraInstr)> = vec![
        (0xF407, Chip8ExtraInstr::CheckDelay(Chip8SingleRegOp { reg: 4 })),
        (0xF40A, Chip8ExtraInstr::WaitForKey(Chip8SingleRegOp { reg: 4 })),
        (0xF415, Chip8ExtraInstr::SetDelay(Chip8SingleRegOp { reg: 4 })),
        (0xF418, Chip8ExtraInstr::SetBuzzer(Chip8SingleRegOp { reg: 4 })),
        (0xF41E, Chip8ExtraInstr::IncrIndex(Chip8SingleRegOp { reg: 4 })),
        (0xF429, Chip8ExtraInstr::SetIndexHex(Chip8SingleRegOp { reg: 4 })),
        (0xF433, Chip8ExtraInstr::BcdReg(Chip8SingleRegOp { reg: 4 })),
        (0xF455, Chip8ExtraInstr::SaveRegRange(Chip8SingleRegOp { reg: 4 })),
        (0xF465, Chip8ExtraInstr::LoadRegRange(Chip8SingleRegOp { reg: 4 })),
    ];
    for (word, ei) in cases {
        assert_eq!(Chip8Instr::from_u16(word), Ok(Chip8Instr::Extra(ei)));
    }
}

#[test]
fn test_decode_fails_closed() {
    assert_eq!(
        Chip8Instr::from_u16(0x0123),
        Err(DecodeError::UnknownSysOp(0x123))
    );
    assert_eq!(
        Chip8Instr::from_u16(0x5231),
        Err(DecodeError::UnknownRegEqOp(1))
    );
    assert_eq!(
        Chip8Instr::from_u16(0x8128),
        Err(DecodeError::UnknownMathOp(8))
    );
    assert_eq!(
        Chip8Instr::from_u16(0x9342),
        Err(DecodeError::UnknownRegNeOp(2))
    );
    assert_eq!(
        Chip8Instr::from_u16(0xE300),
        Err(DecodeError::UnknownKeyOp(0))
    );
    assert_eq!(
        Chip8Instr::from_u16(0xF4FF),
        Err(DecodeError::UnknownExtraOp(0xFF))
    );
}

#[test]
fn test_operand_extractors() {
    let word: u16 = 0xDABC;
    assert_eq!(Chip8LongImmOp::new(&word).imm, 0xABC);
    assert_eq!(Chip8SingleRegOp::new(&word).reg, 0xA);
    let rr = Chip8DoubleRegOp::new(&word);
    assert_eq!(rr.a, 0xA);
    assert_eq!(rr.b, 0xB);
    let ri = Chip8SingleRegImmOp::new(&word);
    assert_eq!(ri.reg, 0xA);
    assert_eq!(ri.imm, 0xBC);
    let rri = Chip8DoubleRegImmOp::new(&word);
    assert_eq!(rri.a, 0xA);
    assert_eq!(rri.b, 0xB);
    assert_eq!(rri.imm, 0xC);
}

#[test]
fn test_decode_encode_roundtrip() {
    // One representative word per opcode family and sub-opcode.
    let words: Vec<u16> = vec![
        0x00E0, 0x00EE, 0x1234, 0x2ABC, 0x3142, 0x4517, 0x5230, 0x6799, 0x7801, 0x8120, 0x8121,
        0x8122, 0x8123, 0x8124, 0x8125, 0x8126, 0x8127, 0x812E, 0x9340, 0xA123, 0xB456, 0xC2F0,
        0xD125, 0xE39E, 0xE3A1, 0xF407, 0xF40A, 0xF415, 0xF418, 0xF41E, 0xF429, 0xF433, 0xF455,
        0xF465,
    ];
    for word in words {
        let decoded = Chip8Instr::from_u16(word).unwrap();
        assert_eq!(decoded.encode(), word, "round trip for {:04X}", word);
    }
}

#[test]
fn test_encode_concrete() {
    assert_eq!(Chip8Instr::Jump(Chip8LongImmOp { imm: 0x234 }).encode(), 0x1234);
    assert_eq!(
        Chip8Instr::Math(Chip8MathInstr::IncrBy(Chip8DoubleRegOp { a: 5, b: 6 })).encode(),
        0x8564
    );
    assert_eq!(
        Chip8Instr::Key(Chip8KeyConditionalInstr::KeyPressed(Chip8SingleRegOp { reg: 7 }))
            .encode(),
        0xE7A1
    );
}
