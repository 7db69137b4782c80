//! Instruction words, operand forms, and the two-level decoder.
//!
//! An instruction word is 16 bits wide; its top nibble selects one of sixteen
//! opcode families.  Six families (system, the two register-compare forms,
//! math, key-conditional, miscellaneous) dispatch a second time on a
//! sub-opcode nibble or byte.  Operands are extracted by fixed bit masks:
//! a register index from bits 8-11 (and bits 4-7 for two-register forms),
//! an 8-bit immediate from bits 0-7, a 12-bit immediate from bits 0-11 and
//! a 4-bit immediate from bits 0-3.

use vstd::prelude::*;
use crate::errors::DecodeError;

verus! {

pub const CHIP8_CLEAR_RET_FIRST_NIBBLE: u8 = 0;
pub const CHIP8_JUMP_FIRST_NIBBLE: u8 = 1;
pub const CHIP8_CALL_FIRST_NIBBLE: u8 = 2;
pub const CHIP8_IMM_EQ_FIRST_NIBBLE: u8 = 3;
pub const CHIP8_IMM_NE_FIRST_NIBBLE: u8 = 4;
pub const CHIP8_REG_EQ_FIRST_NIBBLE: u8 = 5;
pub const CHIP8_REG_ASSIGN_FIRST_NIBBLE: u8 = 6;
pub const CHIP8_REG_INCR_FIRST_NIBBLE: u8 = 7;
pub const CHIP8_MATH_FIRST_NIBBLE: u8 = 8;
pub const CHIP8_REG_NE_FIRST_NIBBLE: u8 = 9;
pub const CHIP8_INDEX_SET_FIRST_NIBBLE: u8 = 0xA;
pub const CHIP8_REL_JUMP_FIRST_NIBBLE: u8 = 0xB;
pub const CHIP8_RAND_NUM_FIRST_NIBBLE: u8 = 0xC;
pub const CHIP8_SPRITE_OP_FIRST_NIBBLE: u8 = 0xD;
pub const CHIP8_KEY_OP_FIRST_NIBBLE: u8 = 0xE;
pub const CHIP8_EXTRA_OPS_FIRST_NIBBLE: u8 = 0xF;

/// An instruction that carries no operands.
#[derive(Clone, Copy, Debug, PartialEq, Eq, Structural)]
pub struct Chip8NoArgsOp {}

/// A 12-bit immediate operand (an address).
#[derive(Clone, Copy, Debug, PartialEq, Eq, Structural)]
pub struct Chip8LongImmOp {
    pub imm: u16,
}

/// A single register index operand.
#[derive(Clone, Copy, Debug, PartialEq, Eq, Structural)]
pub struct Chip8SingleRegOp {
    pub reg: u8,
}

/// Two register index operands.
#[derive(Clone, Copy, Debug, PartialEq, Eq, Structural)]
pub struct Chip8DoubleRegOp {
    pub a: u8,
    pub b: u8,
}

/// A register index and an 8-bit immediate.
#[derive(Clone, Copy, Debug, PartialEq, Eq, Structural)]
pub struct Chip8SingleRegImmOp {
    pub reg: u8,
    pub imm: u8,
}

/// Two register indices and a 4-bit immediate.
#[derive(Clone, Copy, Debug, PartialEq, Eq, Structural)]
pub struct Chip8DoubleRegImmOp {
    pub a: u8,
    pub b: u8,
    pub imm: u8,
}

/// The math family: two-register arithmetic, logic and shifts.
#[derive(Clone, Copy, Debug, PartialEq, Eq, Structural)]
pub enum Chip8MathInstr {
    Assign(Chip8DoubleRegOp),
    Or(Chip8DoubleRegOp),
    And(Chip8DoubleRegOp),
    Xor(Chip8DoubleRegOp),
    IncrBy(Chip8DoubleRegOp),
    DecrBy(Chip8DoubleRegOp),
    RightShift(Chip8DoubleRegOp),
    InvDecrBy(Chip8DoubleRegOp),
    LeftShift(Chip8DoubleRegOp),
}

/// The miscellaneous family: timers, index arithmetic, BCD and register ranges.
#[derive(Clone, Copy, Debug, PartialEq, Eq, Structural)]
pub enum Chip8ExtraInstr {
    CheckDelay(Chip8SingleRegOp),
    WaitForKey(Chip8SingleRegOp),
    SetDelay(Chip8SingleRegOp),
    SetBuzzer(Chip8SingleRegOp),
    IncrIndex(Chip8SingleRegOp),
    SetIndexHex(Chip8SingleRegOp),
    BcdReg(Chip8SingleRegOp),
    SaveRegRange(Chip8SingleRegOp),
    LoadRegRange(Chip8SingleRegOp),
}

/// The key-conditional family: skip on keypad state.
#[derive(Clone, Copy, Debug, PartialEq, Eq, Structural)]
pub enum Chip8KeyConditionalInstr {
    KeyPressed(Chip8SingleRegOp),
    KeyNotPressed(Chip8SingleRegOp),
}

/// A decoded instruction: one tagged variant per opcode family.
#[derive(Clone, Copy, Debug, PartialEq, Eq, Structural)]
pub enum Chip8Instr {
    Clear(Chip8NoArgsOp),
    Return(Chip8NoArgsOp),
    Jump(Chip8LongImmOp),
    Call(Chip8LongImmOp),
    SkipImmEq(Chip8SingleRegImmOp),
    SkipImmNe(Chip8SingleRegImmOp),
    SkipRegEq(Chip8DoubleRegOp),
    RegAssign(Chip8SingleRegImmOp),
    RegIncr(Chip8SingleRegImmOp),
    Math(Chip8MathInstr),
    SkipRegNe(Chip8DoubleRegOp),
    SetIndex(Chip8LongImmOp),
    RelJump(Chip8LongImmOp),
    Random(Chip8SingleRegImmOp),
    Draw(Chip8DoubleRegImmOp),
    Key(Chip8KeyConditionalInstr),
    Extra(Chip8ExtraInstr),
}

/// The 12-bit immediate: bits 0-11.
pub open spec fn spec_long_imm(w: u16) -> Chip8LongImmOp {
    Chip8LongImmOp { imm: w & 0xFFF }
}

/// The first register index: bits 8-11.
pub open spec fn spec_single_reg(w: u16) -> Chip8SingleRegOp {
    Chip8SingleRegOp { reg: ((w & 0xF00) >> 8) as u8 }
}

/// Register indices from bits 8-11 and bits 4-7.
pub open spec fn spec_double_reg(w: u16) -> Chip8DoubleRegOp {
    Chip8DoubleRegOp { a: ((w & 0xF00) >> 8) as u8, b: ((w & 0xF0) >> 4) as u8 }
}

/// A register index from bits 8-11 and an 8-bit immediate from bits 0-7.
pub open spec fn spec_single_reg_imm(w: u16) -> Chip8SingleRegImmOp {
    Chip8SingleRegImmOp { reg: ((w & 0xF00) >> 8) as u8, imm: (w & 0xFF) as u8 }
}

/// Register indices from bits 8-11 and 4-7, and a 4-bit immediate from bits 0-3.
pub open spec fn spec_double_reg_imm(w: u16) -> Chip8DoubleRegImmOp {
    Chip8DoubleRegImmOp {
        a: ((w & 0xF00) >> 8) as u8,
        b: ((w & 0xF0) >> 4) as u8,
        imm: (w & 0xF) as u8,
    }
}

/// Every operand field extracted from a word lies within its mask.
pub proof fn lemma_field_bounds(w: u16)
    by (bit_vector)
    ensures
        w & 0xFFF <= 0xFFF,
        ((w & 0xF00) >> 8) <= 0xF,
        ((w & 0xF0) >> 4) <= 0xF,
        w & 0xFF <= 0xFF,
        w & 0xF <= 0xF,
        ((w & 0xF000) >> 12) <= 0xF,
{
}

impl Chip8LongImmOp {
    /// A 12-bit immediate fits its field.
    pub open spec fn wf(self) -> bool {
        self.imm <= 0xFFF
    }

    pub fn new(instr: &u16) -> (r: Chip8LongImmOp)
        ensures
            r == spec_long_imm(*instr),
            r.wf(),
    {
        proof {
            lemma_field_bounds(*instr);
        }
        Chip8LongImmOp { imm: *instr & 0xFFF }
    }
}

impl Chip8SingleRegOp {
    /// A register index names one of the sixteen registers.
    pub open spec fn wf(self) -> bool {
        self.reg <= 0xF
    }

    pub fn new(instr: &u16) -> (r: Chip8SingleRegOp)
        ensures
            r == spec_single_reg(*instr),
            r.wf(),
    {
        proof {
            lemma_field_bounds(*instr);
        }
        Chip8SingleRegOp { reg: ((*instr & 0xF00) >> 8) as u8 }
    }
}

impl Chip8DoubleRegOp {
    /// Both register indices name one of the sixteen registers.
    pub open spec fn wf(self) -> bool {
        self.a <= 0xF && self.b <= 0xF
    }

    pub fn new(instr: &u16) -> (r: Chip8DoubleRegOp)
        ensures
            r == spec_double_reg(*instr),
            r.wf(),
    {
        proof {
            lemma_field_bounds(*instr);
        }
        Chip8DoubleRegOp { a: ((*instr & 0xF00) >> 8) as u8, b: ((*instr & 0xF0) >> 4) as u8 }
    }
}

impl Chip8SingleRegImmOp {
    /// The register index names one of the sixteen registers.
    pub open spec fn wf(self) -> bool {
        self.reg <= 0xF
    }

    pub fn new(instr: &u16) -> (r: Chip8SingleRegImmOp)
        ensures
            r == spec_single_reg_imm(*instr),
            r.wf(),
    {
        proof {
            lemma_field_bounds(*instr);
        }
        Chip8SingleRegImmOp { reg: ((*instr & 0xF00) >> 8) as u8, imm: (*instr & 0xFF) as u8 }
    }
}

impl Chip8DoubleRegImmOp {
    /// Both register indices name registers; the immediate is four bits wide.
    pub open spec fn wf(self) -> bool {
        self.a <= 0xF && self.b <= 0xF && self.imm <= 0xF
    }

    pub fn new(instr: &u16) -> (r: Chip8DoubleRegImmOp)
        ensures
            r == spec_double_reg_imm(*instr),
            r.wf(),
    {
        proof {
            lemma_field_bounds(*instr);
        }
        Chip8DoubleRegImmOp {
            a: ((*instr & 0xF00) >> 8) as u8,
            b: ((*instr & 0xF0) >> 4) as u8,
            imm: (*instr & 0xF) as u8,
        }
    }
}

impl Chip8MathInstr {
    pub open spec fn wf(self) -> bool {
        match self {
            Chip8MathInstr::Assign(op) => op.wf(),
            Chip8MathInstr::Or(op) => op.wf(),
            Chip8MathInstr::And(op) => op.wf(),
            Chip8MathInstr::Xor(op) => op.wf(),
            Chip8MathInstr::IncrBy(op) => op.wf(),
            Chip8MathInstr::DecrBy(op) => op.wf(),
            Chip8MathInstr::RightShift(op) => op.wf(),
            Chip8MathInstr::InvDecrBy(op) => op.wf(),
            Chip8MathInstr::LeftShift(op) => op.wf(),
        }
    }
}

impl Chip8ExtraInstr {
    pub open spec fn wf(self) -> bool {
        match self {
            Chip8ExtraInstr::CheckDelay(op) => op.wf(),
            Chip8ExtraInstr::WaitForKey(op) => op.wf(),
            Chip8ExtraInstr::SetDelay(op) => op.wf(),
            Chip8ExtraInstr::SetBuzzer(op) => op.wf(),
            Chip8ExtraInstr::IncrIndex(op) => op.wf(),
            Chip8ExtraInstr::SetIndexHex(op) => op.wf(),
            Chip8ExtraInstr::BcdReg(op) => op.wf(),
            Chip8ExtraInstr::SaveRegRange(op) => op.wf(),
            Chip8ExtraInstr::LoadRegRange(op) => op.wf(),
        }
    }
}

impl Chip8KeyConditionalInstr {
    pub open spec fn wf(self) -> bool {
        match self {
            Chip8KeyConditionalInstr::KeyPressed(op) => op.wf(),
            Chip8KeyConditionalInstr::KeyNotPressed(op) => op.wf(),
        }
    }
}

impl Chip8Instr {
    /// Every operand field fits the bit field it was decoded from.
    pub open spec fn wf(self) -> bool {
        match self {
            Chip8Instr::Clear(_) => true,
            Chip8Instr::Return(_) => true,
            Chip8Instr::Jump(op) => op.wf(),
            Chip8Instr::Call(op) => op.wf(),
            Chip8Instr::SkipImmEq(op) => op.wf(),
            Chip8Instr::SkipImmNe(op) => op.wf(),
            Chip8Instr::SkipRegEq(op) => op.wf(),
            Chip8Instr::RegAssign(op) => op.wf(),
            Chip8Instr::RegIncr(op) => op.wf(),
            Chip8Instr::Math(mi) => mi.wf(),
            Chip8Instr::SkipRegNe(op) => op.wf(),
            Chip8Instr::SetIndex(op) => op.wf(),
            Chip8Instr::RelJump(op) => op.wf(),
            Chip8Instr::Random(op) => op.wf(),
            Chip8Instr::Draw(op) => op.wf(),
            Chip8Instr::Key(ki) => ki.wf(),
            Chip8Instr::Extra(ei) => ei.wf(),
        }
    }
}

/// What a 16-bit word decodes to: the family from the top nibble, operands by
/// the fixed masks, and for the six two-level families a sub-opcode dispatch
/// that fails closed on anything unrecognized.
pub open spec fn spec_decode(w: u16) -> Result<Chip8Instr, DecodeError> {
    let family = ((w & 0xF000) >> 12) as u8;
    if family == CHIP8_CLEAR_RET_FIRST_NIBBLE {
        let low12 = w & 0xFFF;
        if low12 == 0x0E0 {
            Ok(Chip8Instr::Clear(Chip8NoArgsOp {}))
        } else if low12 == 0x0EE {
            Ok(Chip8Instr::Return(Chip8NoArgsOp {}))
        } else {
            Err(DecodeError::UnknownSysOp(low12))
        }
    } else if family == CHIP8_JUMP_FIRST_NIBBLE {
        Ok(Chip8Instr::Jump(spec_long_imm(w)))
    } else if family == CHIP8_CALL_FIRST_NIBBLE {
        Ok(Chip8Instr::Call(spec_long_imm(w)))
    } else if family == CHIP8_IMM_EQ_FIRST_NIBBLE {
        Ok(Chip8Instr::SkipImmEq(spec_single_reg_imm(w)))
    } else if family == CHIP8_IMM_NE_FIRST_NIBBLE {
        Ok(Chip8Instr::SkipImmNe(spec_single_reg_imm(w)))
    } else if family == CHIP8_REG_EQ_FIRST_NIBBLE {
        if (w & 0xF) as u8 == 0 {
            Ok(Chip8Instr::SkipRegEq(spec_double_reg(w)))
        } else {
            Err(DecodeError::UnknownRegEqOp((w & 0xF) as u8))
        }
    } else if family == CHIP8_REG_ASSIGN_FIRST_NIBBLE {
        Ok(Chip8Instr::RegAssign(spec_single_reg_imm(w)))
    } else if family == CHIP8_REG_INCR_FIRST_NIBBLE {
        Ok(Chip8Instr::RegIncr(spec_single_reg_imm(w)))
    } else if family == CHIP8_MATH_FIRST_NIBBLE {
        let secondary = (w & 0xF) as u8;
        if secondary == 0 {
            Ok(Chip8Instr::Math(Chip8MathInstr::Assign(spec_double_reg(w))))
        } else if secondary == 1 {
            Ok(Chip8Instr::Math(Chip8MathInstr::Or(spec_double_reg(w))))
        } else if secondary == 2 {
            Ok(Chip8Instr::Math(Chip8MathInstr::And(spec_double_reg(w))))
        } else if secondary == 3 {
            Ok(Chip8Instr::Math(Chip8MathInstr::Xor(spec_double_reg(w))))
        } else if secondary == 4 {
            Ok(Chip8Instr::Math(Chip8MathInstr::IncrBy(spec_double_reg(w))))
        } else if secondary == 5 {
            Ok(Chip8Instr::Math(Chip8MathInstr::DecrBy(spec_double_reg(w))))
        } else if secondary == 6 {
            Ok(Chip8Instr::Math(Chip8MathInstr::RightShift(spec_double_reg(w))))
        } else if secondary == 7 {
            Ok(Chip8Instr::Math(Chip8MathInstr::InvDecrBy(spec_double_reg(w))))
        } else if secondary == 0xE {
            Ok(Chip8Instr::Math(Chip8MathInstr::LeftShift(spec_double_reg(w))))
        } else {
            Err(DecodeError::UnknownMathOp(secondary))
        }
    } else if family == CHIP8_REG_NE_FIRST_NIBBLE {
        if (w & 0xF) as u8 == 0 {
            Ok(Chip8Instr::SkipRegNe(spec_double_reg(w)))
        } else {
            Err(DecodeError::UnknownRegNeOp((w & 0xF) as u8))
        }
    } else if family == CHIP8_INDEX_SET_FIRST_NIBBLE {
        Ok(Chip8Instr::SetIndex(spec_long_imm(w)))
    } else if family == CHIP8_REL_JUMP_FIRST_NIBBLE {
        Ok(Chip8Instr::RelJump(spec_long_imm(w)))
    } else if family == CHIP8_RAND_NUM_FIRST_NIBBLE {
        Ok(Chip8Instr::Random(spec_single_reg_imm(w)))
    } else if family == CHIP8_SPRITE_OP_FIRST_NIBBLE {
        Ok(Chip8Instr::Draw(spec_double_reg_imm(w)))
    } else if family == CHIP8_KEY_OP_FIRST_NIBBLE {
        let secondary = (w & 0xFF) as u8;
        if secondary == 0x9E {
            Ok(Chip8Instr::Key(Chip8KeyConditionalInstr::KeyNotPressed(spec_single_reg(w))))
        } else if secondary == 0xA1 {
            Ok(Chip8Instr::Key(Chip8KeyConditionalInstr::KeyPressed(spec_single_reg(w))))
        } else {
            Err(DecodeError::UnknownKeyOp(secondary))
        }
    } else {
        let secondary = (w & 0xFF) as u8;
        if secondary == 0x07 {
            Ok(Chip8Instr::Extra(Chip8ExtraInstr::CheckDelay(spec_single_reg(w))))
        } else if secondary == 0x0A {
            Ok(Chip8Instr::Extra(Chip8ExtraInstr::WaitForKey(spec_single_reg(w))))
        } else if secondary == 0x15 {
            Ok(Chip8Instr::Extra(Chip8ExtraInstr::SetDelay(spec_single_reg(w))))
        } else if secondary == 0x18 {
            Ok(Chip8Instr::Extra(Chip8ExtraInstr::SetBuzzer(spec_single_reg(w))))
        } else if secondary == 0x1E {
            Ok(Chip8Instr::Extra(Chip8ExtraInstr::IncrIndex(spec_single_reg(w))))
        } else if secondary == 0x29 {
            Ok(Chip8Instr::Extra(Chip8ExtraInstr::SetIndexHex(spec_single_reg(w))))
        } else if secondary == 0x33 {
            Ok(Chip8Instr::Extra(Chip8ExtraInstr::BcdReg(spec_single_reg(w))))
        } else if secondary == 0x55 {
            Ok(Chip8Instr::Extra(Chip8ExtraInstr::SaveRegRange(spec_single_reg(w))))
        } else if secondary == 0x65 {
            Ok(Chip8Instr::Extra(Chip8ExtraInstr::LoadRegRange(spec_single_reg(w))))
        } else {
            Err(DecodeError::UnknownExtraOp(secondary))
        }
    }
}

impl Chip8Instr {
    /// Decode a 16-bit instruction word, or fail closed naming the
    /// unrecognized sub-opcode.
    pub fn from_u16(instr: u16) -> (r: Result<Chip8Instr, DecodeError>)
        ensures
            r == spec_decode(instr),
            r matches Ok(i) ==> i.wf(),
    {
        proof {
            lemma_field_bounds(instr);
        }
        let opcode: u8 = ((instr & 0xF000) >> 12) as u8;
        if opcode == CHIP8_CLEAR_RET_FIRST_NIBBLE {
            let low12: u16 = instr & 0xFFF;
            if low12 == 0x0E0 {
                Ok(Chip8Instr::Clear(Chip8NoArgsOp {}))
            } else if low12 == 0x0EE {
                Ok(Chip8Instr::Return(Chip8NoArgsOp {}))
            } else {
                Err(DecodeError::UnknownSysOp(low12))
            }
        } else if opcode == CHIP8_JUMP_FIRST_NIBBLE {
            Ok(Chip8Instr::Jump(Chip8LongImmOp::new(&instr)))
        } else if opcode == CHIP8_CALL_FIRST_NIBBLE {
            Ok(Chip8Instr::Call(Chip8LongImmOp::new(&instr)))
        } else if opcode == CHIP8_IMM_EQ_FIRST_NIBBLE {
            Ok(Chip8Instr::SkipImmEq(Chip8SingleRegImmOp::new(&instr)))
        } else if opcode == CHIP8_IMM_NE_FIRST_NIBBLE {
            Ok(Chip8Instr::SkipImmNe(Chip8SingleRegImmOp::new(&instr)))
        } else if opcode == CHIP8_REG_EQ_FIRST_NIBBLE {
            let secondary: u8 = (instr & 0xF) as u8;
            if secondary == 0 {
                Ok(Chip8Instr::SkipRegEq(Chip8DoubleRegOp::new(&instr)))
            } else {
                Err(DecodeError::UnknownRegEqOp(secondary))
            }
        } else if opcode == CHIP8_REG_ASSIGN_FIRST_NIBBLE {
            Ok(Chip8Instr::RegAssign(Chip8SingleRegImmOp::new(&instr)))
        } else if opcode == CHIP8_REG_INCR_FIRST_NIBBLE {
            Ok(Chip8Instr::RegIncr(Chip8SingleRegImmOp::new(&instr)))
        } else if opcode == CHIP8_MATH_FIRST_NIBBLE {
            let secondary: u8 = (instr & 0xF) as u8;
            let mi: Chip8MathInstr = if secondary == 0 {
                Chip8MathInstr::Assign(Chip8DoubleRegOp::new(&instr))
            } else if secondary == 1 {
                Chip8MathInstr::Or(Chip8DoubleRegOp::new(&instr))
            } else if secondary == 2 {
                Chip8MathInstr::And(Chip8DoubleRegOp::new(&instr))
            } else if secondary == 3 {
                Chip8MathInstr::Xor(Chip8DoubleRegOp::new(&instr))
            } else if secondary == 4 {
                Chip8MathInstr::IncrBy(Chip8DoubleRegOp::new(&instr))
            } else if secondary == 5 {
                Chip8MathInstr::DecrBy(Chip8DoubleRegOp::new(&instr))
            } else if secondary == 6 {
                Chip8MathInstr::RightShift(Chip8DoubleRegOp::new(&instr))
            } else if secondary == 7 {
                Chip8MathInstr::InvDecrBy(Chip8DoubleRegOp::new(&instr))
            } else if secondary == 0xE {
                Chip8MathInstr::LeftShift(Chip8DoubleRegOp::new(&instr))
            } else {
                return Err(DecodeError::UnknownMathOp(secondary));
            };
            Ok(Chip8Instr::Math(mi))
        } else if opcode == CHIP8_REG_NE_FIRST_NIBBLE {
            let secondary: u8 = (instr & 0xF) as u8;
            if secondary == 0 {
                Ok(Chip8Instr::SkipRegNe(Chip8DoubleRegOp::new(&instr)))
            } else {
                Err(DecodeError::UnknownRegNeOp(secondary))
            }
        } else if opcode == CHIP8_INDEX_SET_FIRST_NIBBLE {
            Ok(Chip8Instr::SetIndex(Chip8LongImmOp::new(&instr)))
        } else if opcode == CHIP8_REL_JUMP_FIRST_NIBBLE {
            Ok(Chip8Instr::RelJump(Chip8LongImmOp::new(&instr)))
        } else if opcode == CHIP8_RAND_NUM_FIRST_NIBBLE {
            Ok(Chip8Instr::Random(Chip8SingleRegImmOp::new(&instr)))
        } else if opcode == CHIP8_SPRITE_OP_FIRST_NIBBLE {
            Ok(Chip8Instr::Draw(Chip8DoubleRegImmOp::new(&instr)))
        } else if opcode == CHIP8_KEY_OP_FIRST_NIBBLE {
            let secondary: u8 = (instr & 0xFF) as u8;
            let ki: Chip8KeyConditionalInstr = if secondary == 0x9E {
                Chip8KeyConditionalInstr::KeyNotPressed(Chip8SingleRegOp::new(&instr))
            } else if secondary == 0xA1 {
                Chip8KeyConditionalInstr::KeyPressed(Chip8SingleRegOp::new(&instr))
            } else {
                return Err(DecodeError::UnknownKeyOp(secondary));
            };
            Ok(Chip8Instr::Key(ki))
        } else {
            let secondary: u8 = (instr & 0xFF) as u8;
            let ei: Chip8ExtraInstr = if secondary == 0x07 {
                Chip8ExtraInstr::CheckDelay(Chip8SingleRegOp::new(&instr))
            } else if secondary == 0x0A {
                Chip8ExtraInstr::WaitForKey(Chip8SingleRegOp::new(&instr))
            } else if secondary == 0x15 {
                Chip8ExtraInstr::SetDelay(Chip8SingleRegOp::new(&instr))
            } else if secondary == 0x18 {
                Chip8ExtraInstr::SetBuzzer(Chip8SingleRegOp::new(&instr))
            } else if secondary == 0x1E {
                Chip8ExtraInstr::IncrIndex(Chip8SingleRegOp::new(&instr))
            } else if secondary == 0x29 {
                Chip8ExtraInstr::SetIndexHex(Chip8SingleRegOp::new(&instr))
            } else if secondary == 0x33 {
                Chip8ExtraInstr::BcdReg(Chip8SingleRegOp::new(&instr))
            } else if secondary == 0x55 {
                Chip8ExtraInstr::SaveRegRange(Chip8SingleRegOp::new(&instr))
            } else if secondary == 0x65 {
                Chip8ExtraInstr::LoadRegRange(Chip8SingleRegOp::new(&instr))
            } else {
                return Err(DecodeError::UnknownExtraOp(secondary));
            };
            Ok(Chip8Instr::Extra(ei))
        }
    }
}

/// The instruction word that carries an instruction's family, sub-opcode and
/// operand fields, each placed by the fixed masks the decoder extracts with.
pub open spec fn spec_encode(i: Chip8Instr) -> u16 {
    match i {
        Chip8Instr::Clear(_) => 0x00E0,
        Chip8Instr::Return(_) => 0x00EE,
        Chip8Instr::Jump(op) => 0x1000 | op.imm,
        Chip8Instr::Call(op) => 0x2000 | op.imm,
        Chip8Instr::SkipImmEq(op) => 0x3000 | ((op.reg as u16) << 8) | (op.imm as u16),
        Chip8Instr::SkipImmNe(op) => 0x4000 | ((op.reg as u16) << 8) | (op.imm as u16),
        Chip8Instr::SkipRegEq(op) => 0x5000 | ((op.a as u16) << 8) | ((op.b as u16) << 4),
        Chip8Instr::RegAssign(op) => 0x6000 | ((op.reg as u16) << 8) | (op.imm as u16),
        Chip8Instr::RegIncr(op) => 0x7000 | ((op.reg as u16) << 8) | (op.imm as u16),
        Chip8Instr::Math(mi) => match mi {
            Chip8MathInstr::Assign(op) => 0x8000 | ((op.a as u16) << 8) | ((op.b as u16) << 4),
            Chip8MathInstr::Or(op) => 0x8001 | ((op.a as u16) << 8) | ((op.b as u16) << 4),
            Chip8MathInstr::And(op) => 0x8002 | ((op.a as u16) << 8) | ((op.b as u16) << 4),
            Chip8MathInstr::Xor(op) => 0x8003 | ((op.a as u16) << 8) | ((op.b as u16) << 4),
            Chip8MathInstr::IncrBy(op) => 0x8004 | ((op.a as u16) << 8) | ((op.b as u16) << 4),
            Chip8MathInstr::DecrBy(op) => 0x8005 | ((op.a as u16) << 8) | ((op.b as u16) << 4),
            Chip8MathInstr::RightShift(op) => 0x8006 | ((op.a as u16) << 8) | ((op.b as u16) << 4),
            Chip8MathInstr::InvDecrBy(op) => 0x8007 | ((op.a as u16) << 8) | ((op.b as u16) << 4),
            Chip8MathInstr::LeftShift(op) => 0x800E | ((op.a as u16) << 8) | ((op.b as u16) << 4),
        },
        Chip8Instr::SkipRegNe(op) => 0x9000 | ((op.a as u16) << 8) | ((op.b as u16) << 4),
        Chip8Instr::SetIndex(op) => 0xA000 | op.imm,
        Chip8Instr::RelJump(op) => 0xB000 | op.imm,
        Chip8Instr::Random(op) => 0xC000 | ((op.reg as u16) << 8) | (op.imm as u16),
        Chip8Instr::Draw(op) => 0xD000 | ((op.a as u16) << 8) | ((op.b as u16) << 4) | (
        op.imm as u16),
        Chip8Instr::Key(ki) => match ki {
            Chip8KeyConditionalInstr::KeyNotPressed(op) => 0xE09E | ((op.reg as u16) << 8),
            Chip8KeyConditionalInstr::KeyPressed(op) => 0xE0A1 | ((op.reg as u16) << 8),
        },
        Chip8Instr::Extra(ei) => match ei {
            Chip8ExtraInstr::CheckDelay(op) => 0xF007 | ((op.reg as u16) << 8),
            Chip8ExtraInstr::WaitForKey(op) => 0xF00A | ((op.reg as u16) << 8),
            Chip8ExtraInstr::SetDelay(op) => 0xF015 | ((op.reg as u16) << 8),
            Chip8ExtraInstr::SetBuzzer(op) => 0xF018 | ((op.reg as u16) << 8),
            Chip8ExtraInstr::IncrIndex(op) => 0xF01E | ((op.reg as u16) << 8),
            Chip8ExtraInstr::SetIndexHex(op) => 0xF029 | ((op.reg as u16) << 8),
            Chip8ExtraInstr::BcdReg(op) => 0xF033 | ((op.reg as u16) << 8),
            Chip8ExtraInstr::SaveRegRange(op) => 0xF055 | ((op.reg as u16) << 8),
            Chip8ExtraInstr::LoadRegRange(op) => 0xF065 | ((op.reg as u16) << 8),
        },
    }
}

impl Chip8Instr {
    /// Re-encode an instruction into the word that decodes to it.
    pub fn encode(&self) -> (w: u16)
        ensures
            w == spec_encode(*self),
    {
        match *self {
            Chip8Instr::Clear(_) => 0x00E0,
            Chip8Instr::Return(_) => 0x00EE,
            Chip8Instr::Jump(op) => 0x1000 | op.imm,
            Chip8Instr::Call(op) => 0x2000 | op.imm,
            Chip8Instr::SkipImmEq(op) => 0x3000 | ((op.reg as u16) << 8) | (op.imm as u16),
            Chip8Instr::SkipImmNe(op) => 0x4000 | ((op.reg as u16) << 8) | (op.imm as u16),
            Chip8Instr::SkipRegEq(op) => 0x5000 | ((op.a as u16) << 8) | ((op.b as u16) << 4),
            Chip8Instr::RegAssign(op) => 0x6000 | ((op.reg as u16) << 8) | (op.imm as u16),
            Chip8Instr::RegIncr(op) => 0x7000 | ((op.reg as u16) << 8) | (op.imm as u16),
            Chip8Instr::Math(mi) => match mi {
                Chip8MathInstr::Assign(op) => 0x8000 | ((op.a as u16) << 8) | ((op.b as u16) << 4),
                Chip8MathInstr::Or(op) => 0x8001 | ((op.a as u16) << 8) | ((op.b as u16) << 4),
                Chip8MathInstr::And(op) => 0x8002 | ((op.a as u16) << 8) | ((op.b as u16) << 4),
                Chip8MathInstr::Xor(op) => 0x8003 | ((op.a as u16) << 8) | ((op.b as u16) << 4),
                Chip8MathInstr::IncrBy(op) => 0x8004 | ((op.a as u16) << 8) | ((op.b as u16) << 4),
                Chip8MathInstr::DecrBy(op) => 0x8005 | ((op.a as u16) << 8) | ((op.b as u16) << 4),
                Chip8MathInstr::RightShift(op) => 0x8006 | ((op.a as u16) << 8) | ((op.b as u16)
                    << 4),
                Chip8MathInstr::InvDecrBy(op) => 0x8007 | ((op.a as u16) << 8) | ((op.b as u16)
                    << 4),
                Chip8MathInstr::LeftShift(op) => 0x800E | ((op.a as u16) << 8) | ((op.b as u16)
                    << 4),
            },
            Chip8Instr::SkipRegNe(op) => 0x9000 | ((op.a as u16) << 8) | ((op.b as u16) << 4),
            Chip8Instr::SetIndex(op) => 0xA000 | op.imm,
            Chip8Instr::RelJump(op) => 0xB000 | op.imm,
            Chip8Instr::Random(op) => 0xC000 | ((op.reg as u16) << 8) | (op.imm as u16),
            Chip8Instr::Draw(op) => 0xD000 | ((op.a as u16) << 8) | ((op.b as u16) << 4) | (
            op.imm as u16),
            Chip8Instr::Key(ki) => match ki {
                Chip8KeyConditionalInstr::KeyNotPressed(op) => 0xE09E | ((op.reg as u16) << 8),
                Chip8KeyConditionalInstr::KeyPressed(op) => 0xE0A1 | ((op.reg as u16) << 8),
            },
            Chip8Instr::Extra(ei) => match ei {
                Chip8ExtraInstr::CheckDelay(op) => 0xF007 | ((op.reg as u16) << 8),
                Chip8ExtraInstr::WaitForKey(op) => 0xF00A | ((op.reg as u16) << 8),
                Chip8ExtraInstr::SetDelay(op) => 0xF015 | ((op.reg as u16) << 8),
                Chip8ExtraInstr::SetBuzzer(op) => 0xF018 | ((op.reg as u16) << 8),
                Chip8ExtraInstr::IncrIndex(op) => 0xF01E | ((op.reg as u16) << 8),
                Chip8ExtraInstr::SetIndexHex(op) => 0xF029 | ((op.reg as u16) << 8),
                Chip8ExtraInstr::BcdReg(op) => 0xF033 | ((op.reg as u16) << 8),
                Chip8ExtraInstr::SaveRegRange(op) => 0xF055 | ((op.reg as u16) << 8),
                Chip8ExtraInstr::LoadRegRange(op) => 0xF065 | ((op.reg as u16) << 8),
            },
        }
    }
}


/// Re-assembling the family, sub-opcode and operand fields of a recognized
/// word reproduces the word, for every opcode family.
proof fn lemma_reencode_bits(w: u16)
    by (bit_vector)
    ensures
        (((w & 0xF000) >> 12) as u8 == 0 && (w & 0xFFF) == 0x0E0) ==> w == 0x00E0,
        (((w & 0xF000) >> 12) as u8 == 0 && (w & 0xFFF) == 0x0EE) ==> w == 0x00EE,
        ((w & 0xF000) >> 12) as u8 == 0x1 ==> (0x1000u16 | (w & 0xFFF)) == w,
        ((w & 0xF000) >> 12) as u8 == 0x2 ==> (0x2000u16 | (w & 0xFFF)) == w,
        ((w & 0xF000) >> 12) as u8 == 0xA ==> (0xA000u16 | (w & 0xFFF)) == w,
        ((w & 0xF000) >> 12) as u8 == 0xB ==> (0xB000u16 | (w & 0xFFF)) == w,
        ((w & 0xF000) >> 12) as u8 == 0x3 ==> (0x3000u16 | ((((w & 0xF00) >> 8) as u8 as u16) << 8) | (((w & 0xFF) as u8) as u16)) == w,
        ((w & 0xF000) >> 12) as u8 == 0x4 ==> (0x4000u16 | ((((w & 0xF00) >> 8) as u8 as u16) << 8) | (((w & 0xFF) as u8) as u16)) == w,
        ((w & 0xF000) >> 12) as u8 == 0x6 ==> (0x6000u16 | ((((w & 0xF00) >> 8) as u8 as u16) << 8) | (((w & 0xFF) as u8) as u16)) == w,
        ((w & 0xF000) >> 12) as u8 == 0x7 ==> (0x7000u16 | ((((w & 0xF00) >> 8) as u8 as u16) << 8) | (((w & 0xFF) as u8) as u16)) == w,
        ((w & 0xF000) >> 12) as u8 == 0xC ==> (0xC000u16 | ((((w & 0xF00) >> 8) as u8 as u16) << 8) | (((w & 0xFF) as u8) as u16)) == w,
        (((w & 0xF000) >> 12) as u8 == 0x5 && (w & 0xF) as u8 == 0) ==> (0x5000u16 | ((((w & 0xF00) >> 8) as u8 as u16) << 8) | ((((w & 0xF0) >> 4) as u8 as u16) << 4)) == w,
        (((w & 0xF000) >> 12) as u8 == 0x9 && (w & 0xF) as u8 == 0) ==> (0x9000u16 | ((((w & 0xF00) >> 8) as u8 as u16) << 8) | ((((w & 0xF0) >> 4) as u8 as u16) << 4)) == w,
        (((w & 0xF000) >> 12) as u8 == 8 && (w & 0xF) as u8 == 0x0) ==> (0x8000u16 | ((((w & 0xF00) >> 8) as u8 as u16) << 8) | ((((w & 0xF0) >> 4) as u8 as u16) << 4)) == w,
        (((w & 0xF000) >> 12) as u8 == 8 && (w & 0xF) as u8 == 0x1) ==> (0x8001u16 | ((((w & 0xF00) >> 8) as u8 as u16) << 8) | ((((w & 0xF0) >> 4) as u8 as u16) << 4)) == w,
        (((w & 0xF000) >> 12) as u8 == 8 && (w & 0xF) as u8 == 0x2) ==> (0x8002u16 | ((((w & 0xF00) >> 8) as u8 as u16) << 8) | ((((w & 0xF0) >> 4) as u8 as u16) << 4)) == w,
        (((w & 0xF000) >> 12) as u8 == 8 && (w & 0xF) as u8 == 0x3) ==> (0x8003u16 | ((((w & 0xF00) >> 8) as u8 as u16) << 8) | ((((w & 0xF0) >> 4) as u8 as u16) << 4)) == w,
        (((w & 0xF000) >> 12) as u8 == 8 && (w & 0xF) as u8 == 0x4) ==> (0x8004u16 | ((((w & 0xF00) >> 8) as u8 as u16) << 8) | ((((w & 0xF0) >> 4) as u8 as u16) << 4)) == w,
        (((w & 0xF000) >> 12) as u8 == 8 && (w & 0xF) as u8 == 0x5) ==> (0x8005u16 | ((((w & 0xF00) >> 8) as u8 as u16) << 8) | ((((w & 0xF0) >> 4) as u8 as u16) << 4)) == w,
        (((w & 0xF000) >> 12) as u8 == 8 && (w & 0xF) as u8 == 0x6) ==> (0x8006u16 | ((((w & 0xF00) >> 8) as u8 as u16) << 8) | ((((w & 0xF0) >> 4) as u8 as u16) << 4)) == w,
        (((w & 0xF000) >> 12) as u8 == 8 && (w & 0xF) as u8 == 0x7) ==> (0x8007u16 | ((((w & 0xF00) >> 8) as u8 as u16) << 8) | ((((w & 0xF0) >> 4) as u8 as u16) << 4)) == w,
        (((w & 0xF000) >> 12) as u8 == 8 && (w & 0xF) as u8 == 0xE) ==> (0x800Eu16 | ((((w & 0xF00) >> 8) as u8 as u16) << 8) | ((((w & 0xF0) >> 4) as u8 as u16) << 4)) == w,
        ((w & 0xF000) >> 12) as u8 == 0xD ==> (0xD000u16 | ((((w & 0xF00) >> 8) as u8 as u16) << 8) | ((((w & 0xF0) >> 4) as u8 as u16) << 4) | (((w & 0xF) as u8) as u16)) == w,
        (((w & 0xF000) >> 12) as u8 == 0xE && (w & 0xFF) as u8 == 0x9E) ==> (0xE09Eu16 | ((((w & 0xF00) >> 8) as u8 as u16) << 8)) == w,
        (((w & 0xF000) >> 12) as u8 == 0xE && (w & 0xFF) as u8 == 0xA1) ==> (0xE0A1u16 | ((((w & 0xF00) >> 8) as u8 as u16) << 8)) == w,
        (((w & 0xF000) >> 12) as u8 == 0xF && (w & 0xFF) as u8 == 0x07) ==> (0xF007u16 | ((((w & 0xF00) >> 8) as u8 as u16) << 8)) == w,
        (((w & 0xF000) >> 12) as u8 == 0xF && (w & 0xFF) as u8 == 0x0A) ==> (0xF00Au16 | ((((w & 0xF00) >> 8) as u8 as u16) << 8)) == w,
        (((w & 0xF000) >> 12) as u8 == 0xF && (w & 0xFF) as u8 == 0x15) ==> (0xF015u16 | ((((w & 0xF00) >> 8) as u8 as u16) << 8)) == w,
        (((w & 0xF000) >> 12) as u8 == 0xF && (w & 0xFF) as u8 == 0x18) ==> (0xF018u16 | ((((w & 0xF00) >> 8) as u8 as u16) << 8)) == w,
        (((w & 0xF000) >> 12) as u8 == 0xF && (w & 0xFF) as u8 == 0x1E) ==> (0xF01Eu16 | ((((w & 0xF00) >> 8) as u8 as u16) << 8)) == w,
        (((w & 0xF000) >> 12) as u8 == 0xF && (w & 0xFF) as u8 == 0x29) ==> (0xF029u16 | ((((w & 0xF00) >> 8) as u8 as u16) << 8)) == w,
        (((w & 0xF000) >> 12) as u8 == 0xF && (w & 0xFF) as u8 == 0x33) ==> (0xF033u16 | ((((w & 0xF00) >> 8) as u8 as u16) << 8)) == w,
        (((w & 0xF000) >> 12) as u8 == 0xF && (w & 0xFF) as u8 == 0x55) ==> (0xF055u16 | ((((w & 0xF00) >> 8) as u8 as u16) << 8)) == w,
        (((w & 0xF000) >> 12) as u8 == 0xF && (w & 0xFF) as u8 == 0x65) ==> (0xF065u16 | ((((w & 0xF00) >> 8) as u8 as u16) << 8)) == w,
{
}

/// Decoder round trip: decoding a word and re-encoding the decoded
/// instruction's operands reproduces the original word, bit for bit, for
/// every opcode family.
pub proof fn lemma_decode_reencode(w: u16)
    ensures
        spec_decode(w) matches Ok(i) ==> spec_encode(i) == w,
{
    let family = ((w & 0xF000) >> 12) as u8;
    lemma_field_bounds(w);
    lemma_reencode_bits(w);
    if family == 0 {
        if w & 0xFFF == 0x0E0 {
            assert(spec_encode(Chip8Instr::Clear(Chip8NoArgsOp {})) == w);
        } else if w & 0xFFF == 0x0EE {
            assert(spec_encode(Chip8Instr::Return(Chip8NoArgsOp {})) == w);
        }
    } else if family == 1 {
            assert(spec_encode(Chip8Instr::Jump(spec_long_imm(w))) == w);
    } else if family == 2 {
            assert(spec_encode(Chip8Instr::Call(spec_long_imm(w))) == w);
    } else if family == 3 {
            assert(spec_encode(Chip8Instr::SkipImmEq(spec_single_reg_imm(w))) == w);
    } else if family == 4 {
            assert(spec_encode(Chip8Instr::SkipImmNe(spec_single_reg_imm(w))) == w);
    } else if family == 5 {
        if (w & 0xF) as u8 == 0 {
            assert(spec_encode(Chip8Instr::SkipRegEq(spec_double_reg(w))) == w);
        }
    } else if family == 6 {
            assert(spec_encode(Chip8Instr::RegAssign(spec_single_reg_imm(w))) == w);
    } else if family == 7 {
            assert(spec_encode(Chip8Instr::RegIncr(spec_single_reg_imm(w))) == w);
    } else if family == 8 {
        let sub = (w & 0xF) as u8;
        if sub == 0x0 {
            assert(spec_encode(Chip8Instr::Math(Chip8MathInstr::Assign(spec_double_reg(w)))) == w);
        } else if sub == 0x1 {
            assert(spec_encode(Chip8Instr::Math(Chip8MathInstr::Or(spec_double_reg(w)))) == w);
        } else if sub == 0x2 {
            assert(spec_encode(Chip8Instr::Math(Chip8MathInstr::And(spec_double_reg(w)))) == w);
        } else if sub == 0x3 {
            assert(spec_encode(Chip8Instr::Math(Chip8MathInstr::Xor(spec_double_reg(w)))) == w);
        } else if sub == 0x4 {
            assert(spec_encode(Chip8Instr::Math(Chip8MathInstr::IncrBy(spec_double_reg(w)))) == w);
        } else if sub == 0x5 {
            assert(spec_encode(Chip8Instr::Math(Chip8MathInstr::DecrBy(spec_double_reg(w)))) == w);
        } else if sub == 0x6 {
            assert(spec_encode(Chip8Instr::Math(Chip8MathInstr::RightShift(spec_double_reg(w)))) == w);
        } else if sub == 0x7 {
            assert(spec_encode(Chip8Instr::Math(Chip8MathInstr::InvDecrBy(spec_double_reg(w)))) == w);
        } else if sub == 0xE {
            assert(spec_encode(Chip8Instr::Math(Chip8MathInstr::LeftShift(spec_double_reg(w)))) == w);
        }
    } else if family == 9 {
        if (w & 0xF) as u8 == 0 {
            assert(spec_encode(Chip8Instr::SkipRegNe(spec_double_reg(w))) == w);
        }
    } else if family == 0xA {
            assert(spec_encode(Chip8Instr::SetIndex(spec_long_imm(w))) == w);
    } else if family == 0xB {
            assert(spec_encode(Chip8Instr::RelJump(spec_long_imm(w))) == w);
    } else if family == 0xC {
            assert(spec_encode(Chip8Instr::Random(spec_single_reg_imm(w))) == w);
    } else if family == 0xD {
            assert(spec_encode(Chip8Instr::Draw(spec_double_reg_imm(w))) == w);
    } else if family == 0xE {
        let sub = (w & 0xFF) as u8;
        if sub == 0x9E {
            assert(spec_encode(Chip8Instr::Key(Chip8KeyConditionalInstr::KeyNotPressed(spec_single_reg(w)))) == w);
        } else if sub == 0xA1 {
            assert(spec_encode(Chip8Instr::Key(Chip8KeyConditionalInstr::KeyPressed(spec_single_reg(w)))) == w);
        }
    } else {
        let sub = (w & 0xFF) as u8;
        if sub == 0x07 {
            assert(spec_encode(Chip8Instr::Extra(Chip8ExtraInstr::CheckDelay(spec_single_reg(w)))) == w);
        } else if sub == 0x0A {
            assert(spec_encode(Chip8Instr::Extra(Chip8ExtraInstr::WaitForKey(spec_single_reg(w)))) == w);
        } else if sub == 0x15 {
            assert(spec_encode(Chip8Instr::Extra(Chip8ExtraInstr::SetDelay(spec_single_reg(w)))) == w);
        } else if sub == 0x18 {
            assert(spec_encode(Chip8Instr::Extra(Chip8ExtraInstr::SetBuzzer(spec_single_reg(w)))) == w);
        } else if sub == 0x1E {
            assert(spec_encode(Chip8Instr::Extra(Chip8ExtraInstr::IncrIndex(spec_single_reg(w)))) == w);
        } else if sub == 0x29 {
            assert(spec_encode(Chip8Instr::Extra(Chip8ExtraInstr::SetIndexHex(spec_single_reg(w)))) == w);
        } else if sub == 0x33 {
            assert(spec_encode(Chip8Instr::Extra(Chip8ExtraInstr::BcdReg(spec_single_reg(w)))) == w);
        } else if sub == 0x55 {
            assert(spec_encode(Chip8Instr::Extra(Chip8ExtraInstr::SaveRegRange(spec_single_reg(w)))) == w);
        } else if sub == 0x65 {
            assert(spec_encode(Chip8Instr::Extra(Chip8ExtraInstr::LoadRegRange(spec_single_reg(w)))) == w);
        }
    }
}


/// Extracting the family, sub-opcode and operand fields back out of a word
/// assembled from in-range fields recovers each field, for every form.
proof fn lemma_roundtrip_bits(imm: u16, x: u8, y: u8, kk: u8, n: u8)
    by (bit_vector)
    ensures
        (((0x00E0u16 & 0xF000) >> 12) as u8 == 0 && (0x00E0u16 & 0xFFF) == 0x0E0),
        (((0x00EEu16 & 0xF000) >> 12) as u8 == 0 && (0x00EEu16 & 0xFFF) == 0x0EE),
        imm <= 0xFFF ==> (((0x1000u16 | imm) & 0xF000) >> 12) as u8 == 0x1 && ((0x1000u16 | imm) & 0xFFF) == imm,
        imm <= 0xFFF ==> (((0x2000u16 | imm) & 0xF000) >> 12) as u8 == 0x2 && ((0x2000u16 | imm) & 0xFFF) == imm,
        imm <= 0xFFF ==> (((0xA000u16 | imm) & 0xF000) >> 12) as u8 == 0xA && ((0xA000u16 | imm) & 0xFFF) == imm,
        imm <= 0xFFF ==> (((0xB000u16 | imm) & 0xF000) >> 12) as u8 == 0xB && ((0xB000u16 | imm) & 0xFFF) == imm,
        x <= 0xF ==> (((0x3000u16 | ((x as u16) << 8) | (kk as u16)) & 0xF000) >> 12) as u8 == 0x3 && (((0x3000u16 | ((x as u16) << 8) | (kk as u16)) & 0xF00) >> 8) as u8 == x && ((0x3000u16 | ((x as u16) << 8) | (kk as u16)) & 0xFF) as u8 == kk,
        x <= 0xF ==> (((0x4000u16 | ((x as u16) << 8) | (kk as u16)) & 0xF000) >> 12) as u8 == 0x4 && (((0x4000u16 | ((x as u16) << 8) | (kk as u16)) & 0xF00) >> 8) as u8 == x && ((0x4000u16 | ((x as u16) << 8) | (kk as u16)) & 0xFF) as u8 == kk,
        x <= 0xF ==> (((0x6000u16 | ((x as u16) << 8) | (kk as u16)) & 0xF000) >> 12) as u8 == 0x6 && (((0x6000u16 | ((x as u16) << 8) | (kk as u16)) & 0xF00) >> 8) as u8 == x && ((0x6000u16 | ((x as u16) << 8) | (kk as u16)) & 0xFF) as u8 == kk,
        x <= 0xF ==> (((0x7000u16 | ((x as u16) << 8) | (kk as u16)) & 0xF000) >> 12) as u8 == 0x7 && (((0x7000u16 | ((x as u16) << 8) | (kk as u16)) & 0xF00) >> 8) as u8 == x && ((0x7000u16 | ((x as u16) << 8) | (kk as u16)) & 0xFF) as u8 == kk,
        x <= 0xF ==> (((0xC000u16 | ((x as u16) << 8) | (kk as u16)) & 0xF000) >> 12) as u8 == 0xC && (((0xC000u16 | ((x as u16) << 8) | (kk as u16)) & 0xF00) >> 8) as u8 == x && ((0xC000u16 | ((x as u16) << 8) | (kk as u16)) & 0xFF) as u8 == kk,
        (x <= 0xF && y <= 0xF) ==> (((0x5000u16 | ((x as u16) << 8) | ((y as u16) << 4)) & 0xF000) >> 12) as u8 == 0x5 && ((0x5000u16 | ((x as u16) << 8) | ((y as u16) << 4)) & 0xF) as u8 == 0 && (((0x5000u16 | ((x as u16) << 8) | ((y as u16) << 4)) & 0xF00) >> 8) as u8 == x && (((0x5000u16 | ((x as u16) << 8) | ((y as u16) << 4)) & 0xF0) >> 4) as u8 == y,
        (x <= 0xF && y <= 0xF) ==> (((0x9000u16 | ((x as u16) << 8) | ((y as u16) << 4)) & 0xF000) >> 12) as u8 == 0x9 && ((0x9000u16 | ((x as u16) << 8) | ((y as u16) << 4)) & 0xF) as u8 == 0 && (((0x9000u16 | ((x as u16) << 8) | ((y as u16) << 4)) & 0xF00) >> 8) as u8 == x && (((0x9000u16 | ((x as u16) << 8) | ((y as u16) << 4)) & 0xF0) >> 4) as u8 == y,
        (x <= 0xF && y <= 0xF) ==> (((0x8000u16 | ((x as u16) << 8) | ((y as u16) << 4)) & 0xF000) >> 12) as u8 == 8 && ((0x8000u16 | ((x as u16) << 8) | ((y as u16) << 4)) & 0xF) as u8 == 0x0 && (((0x8000u16 | ((x as u16) << 8) | ((y as u16) << 4)) & 0xF00) >> 8) as u8 == x && (((0x8000u16 | ((x as u16) << 8) | ((y as u16) << 4)) & 0xF0) >> 4) as u8 == y,
        (x <= 0xF && y <= 0xF) ==> (((0x8001u16 | ((x as u16) << 8) | ((y as u16) << 4)) & 0xF000) >> 12) as u8 == 8 && ((0x8001u16 | ((x as u16) << 8) | ((y as u16) << 4)) & 0xF) as u8 == 0x1 && (((0x8001u16 | ((x as u16) << 8) | ((y as u16) << 4)) & 0xF00) >> 8) as u8 == x && (((0x8001u16 | ((x as u16) << 8) | ((y as u16) << 4)) & 0xF0) >> 4) as u8 == y,
        (x <= 0xF && y <= 0xF) ==> (((0x8002u16 | ((x as u16) << 8) | ((y as u16) << 4)) & 0xF000) >> 12) as u8 == 8 && ((0x8002u16 | ((x as u16) << 8) | ((y as u16) << 4)) & 0xF) as u8 == 0x2 && (((0x8002u16 | ((x as u16) << 8) | ((y as u16) << 4)) & 0xF00) >> 8) as u8 == x && (((0x8002u16 | ((x as u16) << 8) | ((y as u16) << 4)) & 0xF0) >> 4) as u8 == y,
        (x <= 0xF && y <= 0xF) ==> (((0x8003u16 | ((x as u16) << 8) | ((y as u16) << 4)) & 0xF000) >> 12) as u8 == 8 && ((0x8003u16 | ((x as u16) << 8) | ((y as u16) << 4)) & 0xF) as u8 == 0x3 && (((0x8003u16 | ((x as u16) << 8) | ((y as u16) << 4)) & 0xF00) >> 8) as u8 == x && (((0x8003u16 | ((x as u16) << 8) | ((y as u16) << 4)) & 0xF0) >> 4) as u8 == y,
        (x <= 0xF && y <= 0xF) ==> (((0x8004u16 | ((x as u16) << 8) | ((y as u16) << 4)) & 0xF000) >> 12) as u8 == 8 && ((0x8004u16 | ((x as u16) << 8) | ((y as u16) << 4)) & 0xF) as u8 == 0x4 && (((0x8004u16 | ((x as u16) << 8) | ((y as u16) << 4)) & 0xF00) >> 8) as u8 == x && (((0x8004u16 | ((x as u16) << 8) | ((y as u16) << 4)) & 0xF0) >> 4) as u8 == y,
        (x <= 0xF && y <= 0xF) ==> (((0x8005u16 | ((x as u16) << 8) | ((y as u16) << 4)) & 0xF000) >> 12) as u8 == 8 && ((0x8005u16 | ((x as u16) << 8) | ((y as u16) << 4)) & 0xF) as u8 == 0x5 && (((0x8005u16 | ((x as u16) << 8) | ((y as u16) << 4)) & 0xF00) >> 8) as u8 == x && (((0x8005u16 | ((x as u16) << 8) | ((y as u16) << 4)) & 0xF0) >> 4) as u8 == y,
        (x <= 0xF && y <= 0xF) ==> (((0x8006u16 | ((x as u16) << 8) | ((y as u16) << 4)) & 0xF000) >> 12) as u8 == 8 && ((0x8006u16 | ((x as u16) << 8) | ((y as u16) << 4)) & 0xF) as u8 == 0x6 && (((0x8006u16 | ((x as u16) << 8) | ((y as u16) << 4)) & 0xF00) >> 8) as u8 == x && (((0x8006u16 | ((x as u16) << 8) | ((y as u16) << 4)) & 0xF0) >> 4) as u8 == y,
        (x <= 0xF && y <= 0xF) ==> (((0x8007u16 | ((x as u16) << 8) | ((y as u16) << 4)) & 0xF000) >> 12) as u8 == 8 && ((0x8007u16 | ((x as u16) << 8) | ((y as u16) << 4)) & 0xF) as u8 == 0x7 && (((0x8007u16 | ((x as u16) << 8) | ((y as u16) << 4)) & 0xF00) >> 8) as u8 == x && (((0x8007u16 | ((x as u16) << 8) | ((y as u16) << 4)) & 0xF0) >> 4) as u8 == y,
        (x <= 0xF && y <= 0xF) ==> (((0x800Eu16 | ((x as u16) << 8) | ((y as u16) << 4)) & 0xF000) >> 12) as u8 == 8 && ((0x800Eu16 | ((x as u16) << 8) | ((y as u16) << 4)) & 0xF) as u8 == 0xE && (((0x800Eu16 | ((x as u16) << 8) | ((y as u16) << 4)) & 0xF00) >> 8) as u8 == x && (((0x800Eu16 | ((x as u16) << 8) | ((y as u16) << 4)) & 0xF0) >> 4) as u8 == y,
        (x <= 0xF && y <= 0xF && n <= 0xF) ==> (((0xD000u16 | ((x as u16) << 8) | ((y as u16) << 4) | (n as u16)) & 0xF000) >> 12) as u8 == 0xD && (((0xD000u16 | ((x as u16) << 8) | ((y as u16) << 4) | (n as u16)) & 0xF00) >> 8) as u8 == x && (((0xD000u16 | ((x as u16) << 8) | ((y as u16) << 4) | (n as u16)) & 0xF0) >> 4) as u8 == y && ((0xD000u16 | ((x as u16) << 8) | ((y as u16) << 4) | (n as u16)) & 0xF) as u8 == n,
        x <= 0xF ==> (((0xE09Eu16 | ((x as u16) << 8)) & 0xF000) >> 12) as u8 == 0xE && ((0xE09Eu16 | ((x as u16) << 8)) & 0xFF) as u8 == 0x9E && (((0xE09Eu16 | ((x as u16) << 8)) & 0xF00) >> 8) as u8 == x,
        x <= 0xF ==> (((0xE0A1u16 | ((x as u16) << 8)) & 0xF000) >> 12) as u8 == 0xE && ((0xE0A1u16 | ((x as u16) << 8)) & 0xFF) as u8 == 0xA1 && (((0xE0A1u16 | ((x as u16) << 8)) & 0xF00) >> 8) as u8 == x,
        x <= 0xF ==> (((0xF007u16 | ((x as u16) << 8)) & 0xF000) >> 12) as u8 == 0xF && ((0xF007u16 | ((x as u16) << 8)) & 0xFF) as u8 == 0x07 && (((0xF007u16 | ((x as u16) << 8)) & 0xF00) >> 8) as u8 == x,
        x <= 0xF ==> (((0xF00Au16 | ((x as u16) << 8)) & 0xF000) >> 12) as u8 == 0xF && ((0xF00Au16 | ((x as u16) << 8)) & 0xFF) as u8 == 0x0A && (((0xF00Au16 | ((x as u16) << 8)) & 0xF00) >> 8) as u8 == x,
        x <= 0xF ==> (((0xF015u16 | ((x as u16) << 8)) & 0xF000) >> 12) as u8 == 0xF && ((0xF015u16 | ((x as u16) << 8)) & 0xFF) as u8 == 0x15 && (((0xF015u16 | ((x as u16) << 8)) & 0xF00) >> 8) as u8 == x,
        x <= 0xF ==> (((0xF018u16 | ((x as u16) << 8)) & 0xF000) >> 12) as u8 == 0xF && ((0xF018u16 | ((x as u16) << 8)) & 0xFF) as u8 == 0x18 && (((0xF018u16 | ((x as u16) << 8)) & 0xF00) >> 8) as u8 == x,
        x <= 0xF ==> (((0xF01Eu16 | ((x as u16) << 8)) & 0xF000) >> 12) as u8 == 0xF && ((0xF01Eu16 | ((x as u16) << 8)) & 0xFF) as u8 == 0x1E && (((0xF01Eu16 | ((x as u16) << 8)) & 0xF00) >> 8) as u8 == x,
        x <= 0xF ==> (((0xF029u16 | ((x as u16) << 8)) & 0xF000) >> 12) as u8 == 0xF && ((0xF029u16 | ((x as u16) << 8)) & 0xFF) as u8 == 0x29 && (((0xF029u16 | ((x as u16) << 8)) & 0xF00) >> 8) as u8 == x,
        x <= 0xF ==> (((0xF033u16 | ((x as u16) << 8)) & 0xF000) >> 12) as u8 == 0xF && ((0xF033u16 | ((x as u16) << 8)) & 0xFF) as u8 == 0x33 && (((0xF033u16 | ((x as u16) << 8)) & 0xF00) >> 8) as u8 == x,
        x <= 0xF ==> (((0xF055u16 | ((x as u16) << 8)) & 0xF000) >> 12) as u8 == 0xF && ((0xF055u16 | ((x as u16) << 8)) & 0xFF) as u8 == 0x55 && (((0xF055u16 | ((x as u16) << 8)) & 0xF00) >> 8) as u8 == x,
        x <= 0xF ==> (((0xF065u16 | ((x as u16) << 8)) & 0xF000) >> 12) as u8 == 0xF && ((0xF065u16 | ((x as u16) << 8)) & 0xFF) as u8 == 0x65 && (((0xF065u16 | ((x as u16) << 8)) & 0xF00) >> 8) as u8 == x,
{
}

/// Encoder round trip: a well-formed instruction decodes back from its own
/// encoding, so the encoder is a right inverse of the decoder.
pub proof fn lemma_encode_decode(i: Chip8Instr)
    requires
        i.wf(),
    ensures
        spec_decode(spec_encode(i)) == Ok::<Chip8Instr, DecodeError>(i),
{
    match i {
        Chip8Instr::Clear(_) => {
            lemma_roundtrip_bits(0, 0, 0, 0, 0);
        },
        Chip8Instr::Return(_) => {
            lemma_roundtrip_bits(0, 0, 0, 0, 0);
        },
        Chip8Instr::Jump(op) => {
            lemma_roundtrip_bits(op.imm, 0, 0, 0, 0);
        },
        Chip8Instr::Call(op) => {
            lemma_roundtrip_bits(op.imm, 0, 0, 0, 0);
        },
        Chip8Instr::SkipImmEq(op) => {
            lemma_roundtrip_bits(0, op.reg, 0, op.imm, 0);
        },
        Chip8Instr::SkipImmNe(op) => {
            lemma_roundtrip_bits(0, op.reg, 0, op.imm, 0);
        },
        Chip8Instr::SkipRegEq(op) => {
            lemma_roundtrip_bits(0, op.a, op.b, 0, 0);
        },
        Chip8Instr::RegAssign(op) => {
            lemma_roundtrip_bits(0, op.reg, 0, op.imm, 0);
        },
        Chip8Instr::RegIncr(op) => {
            lemma_roundtrip_bits(0, op.reg, 0, op.imm, 0);
        },
        Chip8Instr::Math(mi) => match mi {
            Chip8MathInstr::Assign(op) => {
                lemma_roundtrip_bits(0, op.a, op.b, 0, 0);
            },
            Chip8MathInstr::Or(op) => {
                lemma_roundtrip_bits(0, op.a, op.b, 0, 0);
            },
            Chip8MathInstr::And(op) => {
                lemma_roundtrip_bits(0, op.a, op.b, 0, 0);
            },
            Chip8MathInstr::Xor(op) => {
                lemma_roundtrip_bits(0, op.a, op.b, 0, 0);
            },
            Chip8MathInstr::IncrBy(op) => {
                lemma_roundtrip_bits(0, op.a, op.b, 0, 0);
            },
            Chip8MathInstr::DecrBy(op) => {
                lemma_roundtrip_bits(0, op.a, op.b, 0, 0);
            },
            Chip8MathInstr::RightShift(op) => {
                lemma_roundtrip_bits(0, op.a, op.b, 0, 0);
            },
            Chip8MathInstr::InvDecrBy(op) => {
                lemma_roundtrip_bits(0, op.a, op.b, 0, 0);
            },
            Chip8MathInstr::LeftShift(op) => {
                lemma_roundtrip_bits(0, op.a, op.b, 0, 0);
            },
        },
        Chip8Instr::SkipRegNe(op) => {
            lemma_roundtrip_bits(0, op.a, op.b, 0, 0);
        },
        Chip8Instr::SetIndex(op) => {
            lemma_roundtrip_bits(op.imm, 0, 0, 0, 0);
        },
        Chip8Instr::RelJump(op) => {
            lemma_roundtrip_bits(op.imm, 0, 0, 0, 0);
        },
        Chip8Instr::Random(op) => {
            lemma_roundtrip_bits(0, op.reg, 0, op.imm, 0);
        },
        Chip8Instr::Draw(op) => {
            lemma_roundtrip_bits(0, op.a, op.b, 0, op.imm);
        },
        Chip8Instr::Key(ki) => match ki {
            Chip8KeyConditionalInstr::KeyPressed(op) => {
                lemma_roundtrip_bits(0, op.reg, 0, 0, 0);
            },
            Chip8KeyConditionalInstr::KeyNotPressed(op) => {
                lemma_roundtrip_bits(0, op.reg, 0, 0, 0);
            },
        },
        Chip8Instr::Extra(ei) => match ei {
            Chip8ExtraInstr::CheckDelay(op) => {
                lemma_roundtrip_bits(0, op.reg, 0, 0, 0);
            },
            Chip8ExtraInstr::WaitForKey(op) => {
                lemma_roundtrip_bits(0, op.reg, 0, 0, 0);
            },
            Chip8ExtraInstr::SetDelay(op) => {
                lemma_roundtrip_bits(0, op.reg, 0, 0, 0);
            },
            Chip8ExtraInstr::SetBuzzer(op) => {
                lemma_roundtrip_bits(0, op.reg, 0, 0, 0);
            },
            Chip8ExtraInstr::IncrIndex(op) => {
                lemma_roundtrip_bits(0, op.reg, 0, 0, 0);
            },
            Chip8ExtraInstr::SetIndexHex(op) => {
                lemma_roundtrip_bits(0, op.reg, 0, 0, 0);
            },
            Chip8ExtraInstr::BcdReg(op) => {
                lemma_roundtrip_bits(0, op.reg, 0, 0, 0);
            },
            Chip8ExtraInstr::SaveRegRange(op) => {
                lemma_roundtrip_bits(0, op.reg, 0, 0, 0);
            },
            Chip8ExtraInstr::LoadRegRange(op) => {
                lemma_roundtrip_bits(0, op.reg, 0, 0, 0);
            },
        },
    }
}

} // verus!
