//! The execution engine: the exact semantics of every opcode.
//!
//! Every instruction first advances the program counter by 2, so a jump,
//! call or skip is relative to the already-advanced counter.
//! [`spec_execute`] gives the whole effect of one instruction on the machine
//! model; `execute` is proved to realize it.

use vstd::prelude::*;
use vstd::pervasive::VecAdditionalExecFns;
use crate::errors::{DecodeError, ExecError};
use crate::instrs::{
    Chip8DoubleRegImmOp, Chip8ExtraInstr, Chip8Instr, Chip8KeyConditionalInstr, Chip8LongImmOp,
    Chip8MathInstr,
};
use crate::machine::{Chip8, MachineView, DISPLAY_HEIGHT, DISPLAY_SIZE, DISPLAY_WIDTH, MEM_SIZE, NUM_REGS};

verus! {

// ---------------------------------------------------------------------------
// Sprite blitting
// ---------------------------------------------------------------------------

/// Whether an XOR blit of `h` sprite rows, read from memory at `index` and
/// drawn at the wrapped origin `(x, y)`, toggles the pixel at column `px` of
/// row `py`.  Sprite bits are taken most-significant first.
pub open spec fn sprite_toggles(
    mem: Seq<u8>,
    index: int,
    x: int,
    y: int,
    h: int,
    px: int,
    py: int,
) -> bool {
    &&& y <= py < y + h
    &&& x <= px < x + 8
    &&& (mem[index + (py - y)] >> ((7 - (px - x)) as u8)) & 1 == 1
}

/// The framebuffer after an XOR sprite blit.  A target cell outside the
/// framebuffer is simply dropped; there is no per-pixel wraparound.
pub open spec fn spec_blit(
    d: Seq<bool>,
    mem: Seq<u8>,
    index: int,
    x: int,
    y: int,
    h: int,
) -> Seq<bool> {
    Seq::new(d.len(), |j: int| d[j] != sprite_toggles(mem, index, x, y, h, j % 64, j / 64))
}

/// As [`sprite_toggles`], restricted to the sprite positions a row-major blit
/// has already visited: every row before `r`, and row `r` before column `c`.
pub open spec fn sprite_toggles_before(
    mem: Seq<u8>,
    index: int,
    x: int,
    y: int,
    h: int,
    px: int,
    py: int,
    r: int,
    c: int,
) -> bool {
    &&& sprite_toggles(mem, index, x, y, h, px, py)
    &&& (py - y < r || (py - y == r && px - x < c))
}

/// The framebuffer partway through a row-major XOR blit.
pub open spec fn spec_blit_before(
    d: Seq<bool>,
    mem: Seq<u8>,
    index: int,
    x: int,
    y: int,
    h: int,
    r: int,
    c: int,
) -> Seq<bool> {
    Seq::new(
        d.len(),
        |j: int| d[j] != sprite_toggles_before(mem, index, x, y, h, j % 64, j / 64, r, c),
    )
}

/// Blitting the same sprite twice at the same origin toggles every affected
/// pixel back: the framebuffer returns to its original state.
pub proof fn lemma_draw_twice_restores(
    d: Seq<bool>,
    mem: Seq<u8>,
    index: int,
    x: int,
    y: int,
    h: int,
)
    ensures
        spec_blit(spec_blit(d, mem, index, x, y, h), mem, index, x, y, h) == d,
{
    let d1 = spec_blit(d, mem, index, x, y, h);
    let d2 = spec_blit(d1, mem, index, x, y, h);
    assert forall|j: int| 0 <= j < d.len() implies d2[j] == d[j] by {
        assert(d1[j] == (d[j] != sprite_toggles(mem, index, x, y, h, j % 64, j / 64)));
    }
    assert(d2 =~= d);
}

/// The low nibble of a byte names one of the sixteen keys.
pub proof fn lemma_low_nibble(x: u8)
    by (bit_vector)
    ensures
        x & 0xF <= 0xF,
{
}

// ---------------------------------------------------------------------------
// Instruction semantics
// ---------------------------------------------------------------------------

/// Advance the program counter by one further instruction when `cond` holds.
pub open spec fn spec_skip(m: MachineView, cond: bool) -> MachineView {
    if cond {
        MachineView { pc: (m.pc + 2) as u16, ..m }
    } else {
        m
    }
}

/// The semantics of the math family applied to a view whose program counter
/// is already advanced.  The carry, borrow or shifted-out flag is written to
/// VF before the destination register, so a destination of VF keeps the
/// arithmetic result.
pub open spec fn spec_math(m: MachineView, mi: Chip8MathInstr) -> MachineView {
    match mi {
        Chip8MathInstr::Assign(op) => MachineView {
            v_regs: m.v_regs.update(op.a as int, m.v_regs[op.b as int]),
            ..m
        },
        Chip8MathInstr::Or(op) => MachineView {
            v_regs: m.v_regs.update(op.a as int, m.v_regs[op.a as int] | m.v_regs[op.b as int]),
            ..m
        },
        Chip8MathInstr::And(op) => MachineView {
            v_regs: m.v_regs.update(op.a as int, m.v_regs[op.a as int] & m.v_regs[op.b as int]),
            ..m
        },
        Chip8MathInstr::Xor(op) => MachineView {
            v_regs: m.v_regs.update(op.a as int, m.v_regs[op.a as int] ^ m.v_regs[op.b as int]),
            ..m
        },
        Chip8MathInstr::IncrBy(op) => {
            let va = m.v_regs[op.a as int];
            let vb = m.v_regs[op.b as int];
            let carry: u8 = if va + vb > 255 { 1 } else { 0 };
            MachineView {
                v_regs: m.v_regs.update(15, carry).update(
                    op.a as int,
                    vstd::wrapping::u8_specs::wrapping_add(va, vb),
                ),
                ..m
            }
        },
        Chip8MathInstr::DecrBy(op) => {
            let va = m.v_regs[op.a as int];
            let vb = m.v_regs[op.b as int];
            let no_borrow: u8 = if va > vb { 1 } else { 0 };
            MachineView {
                v_regs: m.v_regs.update(15, no_borrow).update(
                    op.a as int,
                    vstd::wrapping::u8_specs::wrapping_sub(va, vb),
                ),
                ..m
            }
        },
        Chip8MathInstr::RightShift(op) => {
            let target = if m.cosmac {
                m.v_regs[op.b as int]
            } else {
                m.v_regs[op.a as int]
            };
            let low_bit: u8 = if target & 1 == 1 { 1 } else { 0 };
            MachineView {
                v_regs: m.v_regs.update(15, low_bit).update(op.a as int, target >> 1u8),
                ..m
            }
        },
        Chip8MathInstr::InvDecrBy(op) => {
            let va = m.v_regs[op.a as int];
            let vb = m.v_regs[op.b as int];
            let no_borrow: u8 = if vb > va { 1 } else { 0 };
            MachineView {
                v_regs: m.v_regs.update(15, no_borrow).update(
                    op.a as int,
                    vstd::wrapping::u8_specs::wrapping_sub(vb, va),
                ),
                ..m
            }
        },
        Chip8MathInstr::LeftShift(op) => {
            let target = if m.cosmac {
                m.v_regs[op.b as int]
            } else {
                m.v_regs[op.a as int]
            };
            let high_bit: u8 = if target & 0x80 != 0 { 1 } else { 0 };
            MachineView {
                v_regs: m.v_regs.update(15, high_bit).update(op.a as int, target << 1u8),
                ..m
            }
        },
    }
}

/// The keypad key named by a register: its low nibble.
pub open spec fn spec_key_index(m: MachineView, reg: u8) -> int {
    (m.v_regs[reg as int] & 0xF) as int
}

/// The semantics of the key-conditional family on a pc-advanced view.
pub open spec fn spec_key(m: MachineView, ki: Chip8KeyConditionalInstr) -> MachineView {
    match ki {
        Chip8KeyConditionalInstr::KeyPressed(op) => spec_skip(m, m.keys[spec_key_index(m, op.reg)]),
        Chip8KeyConditionalInstr::KeyNotPressed(op) => spec_skip(
            m,
            !m.keys[spec_key_index(m, op.reg)],
        ),
    }
}

/// The semantics of the miscellaneous family on a pc-advanced view.
pub open spec fn spec_extra(m: MachineView, ei: Chip8ExtraInstr) -> MachineView {
    match ei {
        Chip8ExtraInstr::CheckDelay(op) => MachineView {
            v_regs: m.v_regs.update(op.reg as int, m.delay),
            ..m
        },
        Chip8ExtraInstr::WaitForKey(op) => if m.keys[spec_key_index(m, op.reg)] {
            m
        } else {
            // Rewind so the same instruction is fetched again next step.
            MachineView { pc: (m.pc - 2) as u16, ..m }
        },
        Chip8ExtraInstr::SetDelay(op) => MachineView { delay: m.v_regs[op.reg as int], ..m },
        Chip8ExtraInstr::SetBuzzer(op) => MachineView { sound: m.v_regs[op.reg as int], ..m },
        Chip8ExtraInstr::IncrIndex(op) => {
            let incr = m.v_regs[op.reg as int] as u16;
            let wrapped = vstd::wrapping::u16_specs::wrapping_add(m.index_reg, incr);
            let flag: u8 = if wrapped < m.index_reg { 1 } else { 0 };
            MachineView { index_reg: wrapped, v_regs: m.v_regs.update(15, flag), ..m }
        },
        Chip8ExtraInstr::SetIndexHex(op) => MachineView {
            // Five bytes per glyph: the address of the glyph for a hex digit.
            index_reg: (m.v_regs[op.reg as int] * 5) as u16,
            ..m
        },
        Chip8ExtraInstr::BcdReg(op) => {
            let val = m.v_regs[op.reg as int];
            let origin = m.index_reg as int;
            MachineView {
                mem: m.mem.update(origin, ((val as int / 100) as u8)).update(
                    origin + 1,
                    (((val as int / 10) % 10) as u8),
                ).update(origin + 2, ((val as int % 10) as u8)),
                ..m
            }
        },
        Chip8ExtraInstr::SaveRegRange(op) => MachineView {
            mem: Seq::new(
                m.mem.len(),
                |j: int|
                    if m.index_reg <= j <= m.index_reg + op.reg {
                        m.v_regs[j - m.index_reg]
                    } else {
                        m.mem[j]
                    },
            ),
            ..m
        },
        Chip8ExtraInstr::LoadRegRange(op) => MachineView {
            v_regs: Seq::new(
                m.v_regs.len(),
                |k: int|
                    if k <= op.reg {
                        m.mem[m.index_reg + k]
                    } else {
                        m.v_regs[k]
                    },
            ),
            ..m
        },
    }
}

/// The full effect of one decoded instruction on the machine model.  `rnd` is
/// the byte drawn for a random-number instruction and is ignored by every
/// other instruction.  A return on an empty stack leaves only the advanced
/// program counter (the step itself reports the underflow).
pub open spec fn spec_execute(m: MachineView, instr: Chip8Instr, rnd: u8) -> MachineView {
    let m2 = MachineView { pc: (m.pc + 2) as u16, ..m };
    match instr {
        Chip8Instr::Clear(_) => MachineView {
            display: Seq::new(m.display.len(), |i: int| false),
            ..m2
        },
        Chip8Instr::Return(_) => if m.stack.len() == 0 {
            m2
        } else {
            MachineView { pc: m.stack.last(), stack: m.stack.drop_last(), ..m2 }
        },
        Chip8Instr::Jump(op) => MachineView { pc: op.imm, ..m2 },
        Chip8Instr::Call(op) => MachineView { pc: op.imm, stack: m.stack.push(m2.pc), ..m2 },
        Chip8Instr::SkipImmEq(op) => spec_skip(m2, m.v_regs[op.reg as int] == op.imm),
        Chip8Instr::SkipImmNe(op) => spec_skip(m2, m.v_regs[op.reg as int] != op.imm),
        Chip8Instr::SkipRegEq(op) => spec_skip(
            m2,
            m.v_regs[op.a as int] == m.v_regs[op.b as int],
        ),
        Chip8Instr::RegAssign(op) => MachineView {
            v_regs: m.v_regs.update(op.reg as int, op.imm),
            ..m2
        },
        Chip8Instr::RegIncr(op) => MachineView {
            v_regs: m.v_regs.update(
                op.reg as int,
                vstd::wrapping::u8_specs::wrapping_add(m.v_regs[op.reg as int], op.imm),
            ),
            ..m2
        },
        Chip8Instr::Math(mi) => spec_math(m2, mi),
        Chip8Instr::SkipRegNe(op) => spec_skip(
            m2,
            m.v_regs[op.a as int] != m.v_regs[op.b as int],
        ),
        Chip8Instr::SetIndex(op) => MachineView { index_reg: op.imm, ..m2 },
        Chip8Instr::RelJump(op) => {
            // Legacy mode always offsets by V0; modern mode by the register
            // named in the top nibble of the immediate.
            let reg: u8 = if m.cosmac {
                0
            } else {
                ((op.imm & 0xF00) >> 8) as u8
            };
            MachineView { pc: (op.imm + m.v_regs[reg as int]) as u16, ..m2 }
        },
        Chip8Instr::Random(op) => MachineView {
            v_regs: m.v_regs.update(op.reg as int, rnd & op.imm),
            ..m2
        },
        Chip8Instr::Draw(op) => MachineView {
            display: spec_blit(
                m.display,
                m.mem,
                m.index_reg as int,
                (m.v_regs[op.a as int] % 64) as int,
                (m.v_regs[op.b as int] % 32) as int,
                op.imm as int,
            ),
            ..m2
        },
        Chip8Instr::Key(ki) => spec_key(m2, ki),
        Chip8Instr::Extra(ei) => spec_extra(m2, ei),
    }
}

/// The memory accesses of the miscellaneous family stay inside the address
/// space.
pub open spec fn extra_safe(m: MachineView, ei: Chip8ExtraInstr) -> bool {
    match ei {
        Chip8ExtraInstr::BcdReg(_) => m.index_reg + 2 < MEM_SIZE,
        Chip8ExtraInstr::SaveRegRange(op) => m.index_reg + op.reg < MEM_SIZE,
        Chip8ExtraInstr::LoadRegRange(op) => m.index_reg + op.reg < MEM_SIZE,
        _ => true,
    }
}

/// Executing `instr` stays inside the machine's limits: there is room to
/// advance the program counter, and every memory access is in bounds.
/// An access outside the address space is a fatal bounds violation, which a
/// verified step never performs.
pub open spec fn exec_safe(m: MachineView, instr: Chip8Instr) -> bool {
    &&& m.pc + 4 <= u16::MAX
    &&& match instr {
        Chip8Instr::Draw(op) => op.imm > 0 ==> m.index_reg + op.imm <= MEM_SIZE,
        Chip8Instr::Extra(ei) => extra_safe(m, ei),
        _ => true,
    }
}

/// The big-endian instruction word at the program counter.
pub open spec fn spec_fetch(m: MachineView) -> u16 {
    (m.mem[m.pc as int] * 256 + m.mem[m.pc as int + 1]) as u16
}

// ---------------------------------------------------------------------------
// The engine
// ---------------------------------------------------------------------------

/// Relies on rand::random: draws one byte, uniformly distributed, from the
/// thread-local generator.  Nothing is assumed of the value.
#[verifier::external_body]
fn random_byte() -> u8 {
    rand::random::<u8>()
}

impl Chip8 {
    /// Reset every framebuffer pixel to off.
    fn clear_display(&mut self)
        requires
            old(self).wf(),
        ensures
            final(self).wf(),
            final(self)@ == (MachineView {
                display: Seq::new(old(self)@.display.len(), |i: int| false),
                ..old(self)@
            }),
    {
        self.disp.pixels = vec![false; DISPLAY_SIZE];
        proof {
            assert(self@.display =~= Seq::new(old(self)@.display.len(), |i: int| false));
            assert(self@ =~= (MachineView {
                display: Seq::new(old(self)@.display.len(), |i: int| false),
                ..old(self)@
            }));
        }
    }

    /// Push a return address.
    fn push(&mut self, val: u16)
        ensures
            final(self)@ == (MachineView { stack: old(self)@.stack.push(val), ..old(self)@ }),
    {
        self.stack.push(val);
        proof {
            assert(self@ =~= (MachineView { stack: old(self)@.stack.push(val), ..old(self)@ }));
        }
    }

    /// Pop the most recently pushed return address; underflow on an empty
    /// stack.
    fn pop(&mut self) -> (r: Result<u16, ExecError>)
        ensures
            old(self)@.stack.len() == 0 ==> r == Err::<u16, ExecError>(ExecError::StackUnderflow)
                && final(self)@ == old(self)@,
            old(self)@.stack.len() > 0 ==> r == Ok::<u16, ExecError>(old(self)@.stack.last())
                && final(self)@ == (MachineView {
                stack: old(self)@.stack.drop_last(),
                ..old(self)@
            }),
    {
        match self.stack.pop() {
            Some(val) => {
                proof {
                    assert(self@ =~= (MachineView {
                        stack: old(self)@.stack.drop_last(),
                        ..old(self)@
                    }));
                }
                Ok(val)
            },
            None => Err(ExecError::StackUnderflow),
        }
    }

    /// XOR-blit `height` sprite rows read from memory at the index register,
    /// at the origin given by `x` and `y` wrapped once against the
    /// framebuffer size.
    fn draw(&mut self, x: u8, y: u8, height: u8)
        requires
            old(self).wf(),
            height > 0 ==> old(self)@.index_reg + height <= MEM_SIZE,
        ensures
            final(self).wf(),
            final(self)@ == (MachineView {
                display: spec_blit(
                    old(self)@.display,
                    old(self)@.mem,
                    old(self)@.index_reg as int,
                    (x % 64) as int,
                    (y % 32) as int,
                    height as int,
                ),
                ..old(self)@
            }),
    {
        let x0: usize = (x % 64) as usize;
        let y0: usize = (y % 32) as usize;
        let ghost m0 = self@;
        let ghost gx = x0 as int;
        let ghost gy = y0 as int;
        let ghost gh = height as int;
        let ghost gi = m0.index_reg as int;
        let mut row: usize = 0;
        while row < height as usize
            invariant
                old(self).wf(),
                self.wf(),
                m0 == old(self)@,
                gx == x % 64 && gy == y % 32 && gh == height && gi == m0.index_reg,
                x0 == gx && x0 < 64,
                y0 == gy && y0 < 32,
                0 <= row <= height,
                height > 0 ==> m0.index_reg + height <= MEM_SIZE,
                self@ == (MachineView {
                    display: spec_blit_before(m0.display, m0.mem, gi, gx, gy, gh, row as int, 0),
                    ..m0
                }),
            decreases height - row,
        {
            let offset: usize = self.regs.index_reg as usize + row;
            let sprite_row: u8 = self.mem.memspace[offset];
            let mut col: usize = 0;
            while col < 8
                invariant
                    old(self).wf(),
                    self.wf(),
                    m0 == old(self)@,
                    gx == x % 64 && gy == y % 32 && gh == height && gi == m0.index_reg,
                    0 <= row < height,
                    0 <= col <= 8,
                    x0 == gx && x0 < 64,
                    y0 == gy && y0 < 32,
                    height > 0 ==> m0.index_reg + height <= MEM_SIZE,
                    sprite_row == m0.mem[gi + row],
                    self@ == (MachineView {
                        display: spec_blit_before(
                            m0.display,
                            m0.mem,
                            gi,
                            gx,
                            gy,
                            gh,
                            row as int,
                            col as int,
                        ),
                        ..m0
                    }),
                decreases 8 - col,
            {
                let shift: u8 = (7 - col) as u8;
                let hot: bool = (sprite_row >> shift) & 1 == 1;
                let px: usize = x0 + col;
                let py: usize = y0 + row;
                let ghost before = self.disp.pixels@;
                if hot && py < DISPLAY_HEIGHT && px < DISPLAY_WIDTH {
                    let j: usize = py * DISPLAY_WIDTH + px;
                    let cur: bool = self.disp.pixels[j];
                    self.disp.pixels.set(j, !cur);
                }
                proof {
                    assert forall|k: int| 0 <= k < m0.display.len() implies
                        self.disp.pixels@[k] == (m0.display[k] != sprite_toggles_before(
                            m0.mem,
                            gi,
                            gx,
                            gy,
                            gh,
                            k % 64,
                            k / 64,
                            row as int,
                            col as int + 1,
                        )) by {
                        let px_i = k % 64;
                        let py_i = k / 64;
                        assert(k == 64 * py_i + px_i);
                        assert(before[k] == (m0.display[k] != sprite_toggles_before(
                            m0.mem, gi, gx, gy, gh, px_i, py_i, row as int, col as int,
                        )));
                    }
                    assert(self.disp.pixels@ =~= spec_blit_before(
                        m0.display, m0.mem, gi, gx, gy, gh, row as int, col as int + 1,
                    ));
                    assert(self@ =~= (MachineView {
                        display: spec_blit_before(
                            m0.display, m0.mem, gi, gx, gy, gh, row as int, col as int + 1,
                        ),
                        ..m0
                    }));
                }
                col = col + 1;
            }
            proof {
                assert(spec_blit_before(m0.display, m0.mem, gi, gx, gy, gh, row as int, 8) =~=
                    spec_blit_before(m0.display, m0.mem, gi, gx, gy, gh, row as int + 1, 0));
            }
            row = row + 1;
        }
        proof {
            assert(spec_blit_before(m0.display, m0.mem, gi, gx, gy, gh, gh, 0) =~= spec_blit(
                m0.display, m0.mem, gi, gx, gy, gh,
            ));
            assert(self@ =~= (MachineView {
                display: spec_blit(m0.display, m0.mem, gi, gx, gy, gh),
                ..m0
            }));
        }
    }

    /// Apply one math-family instruction to the current state.
    fn exec_math(&mut self, mi: Chip8MathInstr)
        requires
            old(self).wf(),
            mi.wf(),
        ensures
            final(self).wf(),
            final(self)@ == spec_math(old(self)@, mi),
    {
        match mi {
            Chip8MathInstr::Assign(op) => {
                let val = self.get_reg(op.b);
                self.set_reg(op.a, val);
            },
            Chip8MathInstr::Or(op) => {
                let a = self.get_reg(op.a);
                let b = self.get_reg(op.b);
                self.set_reg(op.a, a | b);
            },
            Chip8MathInstr::And(op) => {
                let a = self.get_reg(op.a);
                let b = self.get_reg(op.b);
                self.set_reg(op.a, a & b);
            },
            Chip8MathInstr::Xor(op) => {
                let a = self.get_reg(op.a);
                let b = self.get_reg(op.b);
                self.set_reg(op.a, a ^ b);
            },
            Chip8MathInstr::IncrBy(op) => {
                let a = self.get_reg(op.a);
                let b = self.get_reg(op.b);
                let sum = a.wrapping_add(b);
                if sum < b {
                    self.set_reg(0xF, 1);
                } else {
                    self.set_reg(0xF, 0);
                }
                self.set_reg(op.a, sum);
            },
            Chip8MathInstr::DecrBy(op) => {
                let a = self.get_reg(op.a);
                let b = self.get_reg(op.b);
                if a > b {
                    self.set_reg(0xF, 1);
                } else {
                    self.set_reg(0xF, 0);
                }
                self.set_reg(op.a, a.wrapping_sub(b));
            },
            Chip8MathInstr::RightShift(op) => {
                let a = self.get_reg(op.a);
                let b = self.get_reg(op.b);
                let target: u8 = if self.cosmac { b } else { a };
                if target & 0x01 == 1 {
                    self.set_reg(0xF, 1);
                } else {
                    self.set_reg(0xF, 0);
                }
                self.set_reg(op.a, target >> 1);
            },
            Chip8MathInstr::InvDecrBy(op) => {
                let a = self.get_reg(op.a);
                let b = self.get_reg(op.b);
                if b > a {
                    self.set_reg(0xF, 1);
                } else {
                    self.set_reg(0xF, 0);
                }
                self.set_reg(op.a, b.wrapping_sub(a));
            },
            Chip8MathInstr::LeftShift(op) => {
                let a = self.get_reg(op.a);
                let b = self.get_reg(op.b);
                let target: u8 = if self.cosmac { b } else { a };
                if target & 0x80 != 0 {
                    self.set_reg(0xF, 1);
                } else {
                    self.set_reg(0xF, 0);
                }
                self.set_reg(op.a, target << 1);
            },
        }
    }

    /// Apply one key-conditional instruction to the current state.
    fn exec_key(&mut self, ki: Chip8KeyConditionalInstr)
        requires
            old(self).wf(),
            ki.wf(),
            old(self)@.pc + 2 <= u16::MAX,
        ensures
            final(self).wf(),
            final(self)@ == spec_key(old(self)@, ki),
    {
        match ki {
            Chip8KeyConditionalInstr::KeyPressed(op) => {
                let k = self.get_reg(op.reg);
                proof {
                    lemma_low_nibble(k);
                }
                let pressed = self.get_key(k & 0xF);
                if pressed {
                    self.regs.pc = self.regs.pc + 2;
                }
                proof {
                    assert(self@ =~= spec_key(old(self)@, ki));
                }
            },
            Chip8KeyConditionalInstr::KeyNotPressed(op) => {
                let k = self.get_reg(op.reg);
                proof {
                    lemma_low_nibble(k);
                }
                let pressed = self.get_key(k & 0xF);
                if !pressed {
                    self.regs.pc = self.regs.pc + 2;
                }
                proof {
                    assert(self@ =~= spec_key(old(self)@, ki));
                }
            },
        }
    }

    /// Apply one miscellaneous-family instruction to the current state.
    fn exec_extra(&mut self, ei: Chip8ExtraInstr)
        requires
            old(self).wf(),
            ei.wf(),
            extra_safe(old(self)@, ei),
            old(self)@.pc >= 2,
        ensures
            final(self).wf(),
            final(self)@ == spec_extra(old(self)@, ei),
    {
        match ei {
            Chip8ExtraInstr::CheckDelay(op) => {
                let d = self.timers.delay;
                self.set_reg(op.reg, d);
            },
            Chip8ExtraInstr::WaitForKey(op) => {
                let k = self.get_reg(op.reg);
                proof {
                    lemma_low_nibble(k);
                }
                let pressed = self.get_key(k & 0xF);
                if !pressed {
                    self.regs.pc = self.regs.pc - 2;
                }
                proof {
                    assert(self@ =~= spec_extra(old(self)@, ei));
                }
            },
            Chip8ExtraInstr::SetDelay(op) => {
                let val = self.get_reg(op.reg);
                self.timers.delay = val;
                proof {
                    assert(self@ =~= spec_extra(old(self)@, ei));
                }
            },
            Chip8ExtraInstr::SetBuzzer(op) => {
                let val = self.get_reg(op.reg);
                self.timers.sound = val;
                proof {
                    assert(self@ =~= spec_extra(old(self)@, ei));
                }
            },
            Chip8ExtraInstr::IncrIndex(op) => {
                let a = self.get_reg(op.reg);
                let start: u16 = self.regs.index_reg;
                self.regs.index_reg = start.wrapping_add(a as u16);
                if self.regs.index_reg < start {
                    self.set_reg(0xF, 1);
                } else {
                    self.set_reg(0xF, 0);
                }
                proof {
                    assert(self@ =~= spec_extra(old(self)@, ei));
                }
            },
            Chip8ExtraInstr::SetIndexHex(op) => {
                let val = self.get_reg(op.reg);
                self.regs.index_reg = (val as u16) * 5;
                proof {
                    assert(self@ =~= spec_extra(old(self)@, ei));
                }
            },
            Chip8ExtraInstr::BcdReg(op) => {
                let val = self.get_reg(op.reg);
                let origin: usize = self.regs.index_reg as usize;
                let hunds: u8 = val / 100;
                let tens: u8 = (val / 10) % 10;
                let ones: u8 = val % 10;
                self.mem.memspace.set(origin, hunds);
                self.mem.memspace.set(origin + 1, tens);
                self.mem.memspace.set(origin + 2, ones);
                proof {
                    assert(self@ =~= spec_extra(old(self)@, ei));
                }
            },
            Chip8ExtraInstr::SaveRegRange(op) => {
                let ghost m0 = self@;
                let origin: usize = self.regs.index_reg as usize;
                let last: u8 = op.reg;
                let mut i: u8 = 0;
                while i <= last
                    invariant
                        old(self).wf(),
                        self.wf(),
                        m0 == old(self)@,
                        last == op.reg < NUM_REGS,
                        origin == m0.index_reg,
                        origin + last < MEM_SIZE,
                        0 <= i <= last + 1,
                        self@ == (MachineView {
                            mem: Seq::new(
                                m0.mem.len(),
                                |j: int|
                                    if origin <= j < origin + i {
                                        m0.v_regs[j - origin]
                                    } else {
                                        m0.mem[j]
                                    },
                            ),
                            ..m0
                        }),
                    decreases last + 1 - i,
                {
                    let val = self.get_reg(i);
                    self.mem.memspace.set(origin + i as usize, val);
                    proof {
                        assert(self.mem.memspace@ =~= Seq::new(
                            m0.mem.len(),
                            |j: int|
                                if origin <= j < origin + i + 1 {
                                    m0.v_regs[j - origin]
                                } else {
                                    m0.mem[j]
                                },
                        ));
                    }
                    i = i + 1;
                }
                proof {
                    assert(self.mem.memspace@ =~= Seq::new(
                        m0.mem.len(),
                        |j: int|
                            if m0.index_reg <= j <= m0.index_reg + op.reg {
                                m0.v_regs[j - m0.index_reg]
                            } else {
                                m0.mem[j]
                            },
                    ));
                    assert(self@ =~= spec_extra(old(self)@, ei));
                }
            },
            Chip8ExtraInstr::LoadRegRange(op) => {
                let ghost m0 = self@;
                let origin: usize = self.regs.index_reg as usize;
                let last: u8 = op.reg;
                let mut i: u8 = 0;
                while i <= last
                    invariant
                        old(self).wf(),
                        self.wf(),
                        m0 == old(self)@,
                        last == op.reg < NUM_REGS,
                        origin == m0.index_reg,
                        origin + last < MEM_SIZE,
                        0 <= i <= last + 1,
                        self@ == (MachineView {
                            v_regs: Seq::new(
                                m0.v_regs.len(),
                                |k: int|
                                    if k < i {
                                        m0.mem[origin + k]
                                    } else {
                                        m0.v_regs[k]
                                    },
                            ),
                            ..m0
                        }),
                    decreases last + 1 - i,
                {
                    let val = self.mem.memspace[origin + i as usize];
                    self.set_reg(i, val);
                    proof {
                        assert(self.regs.v_regs@ =~= Seq::new(
                            m0.v_regs.len(),
                            |k: int|
                                if k < i + 1 {
                                    m0.mem[origin + k]
                                } else {
                                    m0.v_regs[k]
                                },
                        ));
                    }
                    i = i + 1;
                }
                proof {
                    assert(self.regs.v_regs@ =~= Seq::new(
                        m0.v_regs.len(),
                        |k: int|
                            if k <= op.reg {
                                m0.mem[m0.index_reg + k]
                            } else {
                                m0.v_regs[k]
                            },
                    ));
                    assert(self@ =~= spec_extra(old(self)@, ei));
                }
            },
        }
    }

    /// Execute one decoded instruction: advance the program counter by 2,
    /// then apply the instruction's own effect.  Fails only on a return with
    /// an empty call stack.
    pub fn execute(&mut self, instr: Chip8Instr) -> (r: Result<(), ExecError>)
        requires
            old(self).wf(),
            instr.wf(),
            exec_safe(old(self)@, instr),
        ensures
            final(self).wf(),
            r is Err <==> (instr is Return && old(self)@.stack.len() == 0),
            r is Err ==> r == Err::<(), ExecError>(ExecError::StackUnderflow),
            exists|rnd: u8| final(self)@ == spec_execute(old(self)@, instr, rnd),
            !(instr is Random) ==> final(self)@ == spec_execute(old(self)@, instr, 0),
    {
        self.regs.pc = self.regs.pc + 2;
        let ghost m2 = self@;
        let r: Result<(), ExecError> = match instr {
            Chip8Instr::Clear(_) => {
                self.clear_display();
                proof {
                    assert(self@ =~= spec_execute(old(self)@, instr, 0));
                }
                Ok(())
            },
            Chip8Instr::Return(_) => {
                match self.pop() {
                    Ok(addr) => {
                        self.regs.pc = addr;
                        proof {
                            assert(self@ =~= spec_execute(old(self)@, instr, 0));
                        }
                        Ok(())
                    },
                    Err(e) => {
                        proof {
                            assert(self@ =~= spec_execute(old(self)@, instr, 0));
                        }
                        Err(e)
                    },
                }
            },
            Chip8Instr::Jump(op) => {
                self.regs.pc = op.imm;
                proof {
                    assert(self@ =~= spec_execute(old(self)@, instr, 0));
                }
                Ok(())
            },
            Chip8Instr::Call(op) => {
                let ret_addr: u16 = self.regs.pc;
                self.push(ret_addr);
                self.regs.pc = op.imm;
                proof {
                    assert(self@ =~= spec_execute(old(self)@, instr, 0));
                }
                Ok(())
            },
            Chip8Instr::SkipImmEq(op) => {
                let a = self.get_reg(op.reg);
                if a == op.imm {
                    self.regs.pc = self.regs.pc + 2;
                }
                proof {
                    assert(self@ =~= spec_execute(old(self)@, instr, 0));
                }
                Ok(())
            },
            Chip8Instr::SkipImmNe(op) => {
                let a = self.get_reg(op.reg);
                if a != op.imm {
                    self.regs.pc = self.regs.pc + 2;
                }
                proof {
                    assert(self@ =~= spec_execute(old(self)@, instr, 0));
                }
                Ok(())
            },
            Chip8Instr::SkipRegEq(op) => {
                let a = self.get_reg(op.a);
                let b = self.get_reg(op.b);
                if a == b {
                    self.regs.pc = self.regs.pc + 2;
                }
                proof {
                    assert(self@ =~= spec_execute(old(self)@, instr, 0));
                }
                Ok(())
            },
            Chip8Instr::RegAssign(op) => {
                self.set_reg(op.reg, op.imm);
                proof {
                    assert(self@ =~= spec_execute(old(self)@, instr, 0));
                }
                Ok(())
            },
            Chip8Instr::RegIncr(op) => {
                let val = self.get_reg(op.reg);
                self.set_reg(op.reg, val.wrapping_add(op.imm));
                proof {
                    assert(self@ =~= spec_execute(old(self)@, instr, 0));
                }
                Ok(())
            },
            Chip8Instr::Math(mi) => {
                self.exec_math(mi);
                proof {
                    assert(self@ =~= spec_execute(old(self)@, instr, 0));
                }
                Ok(())
            },
            Chip8Instr::SkipRegNe(op) => {
                let a = self.get_reg(op.a);
                let b = self.get_reg(op.b);
                if a != b {
                    self.regs.pc = self.regs.pc + 2;
                }
                proof {
                    assert(self@ =~= spec_execute(old(self)@, instr, 0));
                }
                Ok(())
            },
            Chip8Instr::SetIndex(op) => {
                self.regs.index_reg = op.imm;
                proof {
                    assert(self@ =~= spec_execute(old(self)@, instr, 0));
                }
                Ok(())
            },
            Chip8Instr::RelJump(op) => {
                let reg: u8 = if self.cosmac {
                    0
                } else {
                    ((op.imm & 0xF00) >> 8) as u8
                };
                proof {
                    crate::instrs::lemma_field_bounds(op.imm);
                }
                let a = self.get_reg(reg);
                self.regs.pc = op.imm + a as u16;
                proof {
                    assert(self@ =~= spec_execute(old(self)@, instr, 0));
                }
                Ok(())
            },
            Chip8Instr::Random(op) => {
                let drawn: u8 = random_byte();
                self.set_reg(op.reg, drawn & op.imm);
                proof {
                    assert(self@ =~= spec_execute(old(self)@, instr, drawn));
                    assert(exists|rnd: u8| self@ == spec_execute(old(self)@, instr, rnd));
                }
                Ok(())
            },
            Chip8Instr::Draw(op) => {
                let x = self.get_reg(op.a);
                let y = self.get_reg(op.b);
                self.draw(x, y, op.imm);
                proof {
                    assert(self@ =~= spec_execute(old(self)@, instr, 0));
                }
                Ok(())
            },
            Chip8Instr::Key(ki) => {
                self.exec_key(ki);
                proof {
                    assert(self@ =~= spec_execute(old(self)@, instr, 0));
                }
                Ok(())
            },
            Chip8Instr::Extra(ei) => {
                self.exec_extra(ei);
                proof {
                    assert(self@ =~= spec_execute(old(self)@, instr, 0));
                }
                Ok(())
            },
        };
        r
    }

    /// Fetch the big-endian instruction word at the program counter and
    /// decode it.
    pub fn fetch_decode(&self) -> (r: Result<Chip8Instr, DecodeError>)
        requires
            self.wf(),
            self@.pc + 1 < MEM_SIZE,
        ensures
            r == crate::instrs::spec_decode(spec_fetch(self@)),
            r matches Ok(i) ==> i.wf(),
    {
        let fetch_addr: usize = self.regs.pc as usize;
        let hi: u8 = self.mem.memspace[fetch_addr];
        let lo: u8 = self.mem.memspace[fetch_addr + 1];
        let word: u16 = (hi as u16) * 256 + (lo as u16);
        Chip8Instr::from_u16(word)
    }

    /// One fetch-decode-execute cycle.  Reports a decode failure or a stack
    /// underflow to the caller; the machine is unchanged on a decode failure.
    pub fn tick(&mut self) -> (r: Result<(), ExecError>)
        requires
            old(self).wf(),
            old(self)@.pc + 1 < MEM_SIZE,
            crate::instrs::spec_decode(spec_fetch(old(self)@)) matches Ok(i) ==> exec_safe(
                old(self)@,
                i,
            ),
        ensures
            final(self).wf(),
            crate::instrs::spec_decode(spec_fetch(old(self)@)) matches Err(e) ==> r == Err::<
                (),
                ExecError,
            >(ExecError::Decode(e)) && final(self)@ == old(self)@,
            crate::instrs::spec_decode(spec_fetch(old(self)@)) matches Ok(i) ==> {
                &&& (r is Err <==> (i is Return && old(self)@.stack.len() == 0))
                &&& (r is Err ==> r == Err::<(), ExecError>(ExecError::StackUnderflow))
                &&& (exists|rnd: u8| final(self)@ == spec_execute(old(self)@, i, rnd))
                &&& (!(i is Random) ==> final(self)@ == spec_execute(old(self)@, i, 0))
            },
    {
        match self.fetch_decode() {
            Ok(instr) => self.execute(instr),
            Err(e) => Err(ExecError::Decode(e)),
        }
    }

    /// One fetch-decode-execute cycle: the single-step operation an external
    /// driver calls at its chosen rate.
    pub fn step(&mut self) -> (r: Result<(), ExecError>)
        requires
            old(self).wf(),
            old(self)@.pc + 1 < MEM_SIZE,
            crate::instrs::spec_decode(spec_fetch(old(self)@)) matches Ok(i) ==> exec_safe(
                old(self)@,
                i,
            ),
        ensures
            final(self).wf(),
            crate::instrs::spec_decode(spec_fetch(old(self)@)) matches Err(e) ==> r == Err::<
                (),
                ExecError,
            >(ExecError::Decode(e)) && final(self)@ == old(self)@,
            crate::instrs::spec_decode(spec_fetch(old(self)@)) matches Ok(i) ==> {
                &&& (r is Err <==> (i is Return && old(self)@.stack.len() == 0))
                &&& (r is Err ==> r == Err::<(), ExecError>(ExecError::StackUnderflow))
                &&& (exists|rnd: u8| final(self)@ == spec_execute(old(self)@, i, rnd))
                &&& (!(i is Random) ==> final(self)@ == spec_execute(old(self)@, i, 0))
            },
    {
        self.tick()
    }
}


/// Under legacy compatibility a relative jump offsets its immediate by V0,
/// whatever the operand register field holds; under modern semantics it
/// offsets by the register named in the immediate's top nibble.  Over the
/// same register file and the same immediate, the two modes reach different
/// target addresses whenever V0 differs from that register.
pub proof fn lemma_rel_jump_modes(legacy: MachineView, modern: MachineView, op: Chip8LongImmOp)
    requires
        legacy.wf(),
        modern.wf(),
        legacy.cosmac,
        !modern.cosmac,
        legacy.v_regs == modern.v_regs,
        op.wf(),
        legacy.v_regs[(((op.imm & 0xF00) >> 8) as u8) as int] != legacy.v_regs[0],
    ensures
        spec_execute(legacy, Chip8Instr::RelJump(op), 0).pc != spec_execute(
            modern,
            Chip8Instr::RelJump(op),
            0,
        ).pc,
{
    crate::instrs::lemma_field_bounds(op.imm);
    let v0 = legacy.v_regs[0];
    let vx = modern.v_regs[(((op.imm & 0xF00) >> 8) as u8) as int];
    assert(op.imm + v0 <= 0xFFFF);
    assert(op.imm + vx <= 0xFFFF);
}


/// Executing the same draw instruction twice in a row restores the
/// framebuffer: the XOR blit reads sprite data and origin registers that the
/// first draw leaves untouched, so the second blit undoes the first.
pub proof fn lemma_execute_draw_twice(m: MachineView, op: Chip8DoubleRegImmOp)
    requires
        m.wf(),
        op.wf(),
    ensures
        spec_execute(
            spec_execute(m, Chip8Instr::Draw(op), 0),
            Chip8Instr::Draw(op),
            0,
        ).display == m.display,
{
    let m1 = spec_execute(m, Chip8Instr::Draw(op), 0);
    assert(m1.mem == m.mem && m1.index_reg == m.index_reg && m1.v_regs == m.v_regs);
    lemma_draw_twice_restores(
        m.display,
        m.mem,
        m.index_reg as int,
        (m.v_regs[op.a as int] % 64) as int,
        (m.v_regs[op.b as int] % 32) as int,
        op.imm as int,
    );
}

} // verus!
