//! Machine state: registers, memory, call stack, timers, keypad, framebuffer.
//!
//! The state is modelled by [`MachineView`], a ghost record of plain values
//! and sequences; every mutating operation states in its contract how the new
//! view relates to the old one.

use vstd::prelude::*;
use vstd::pervasive::VecAdditionalExecFns;

verus! {

/// Offset at which a program image is placed, and the initial program counter.
pub const PROGRAM_OFFSET: u16 = 0x200;

/// Size of the address space in bytes.
pub const MEM_SIZE: usize = 4096;

/// Number of bytes of built-in font glyphs at the bottom of memory.
pub const FONT_SIZE: usize = 80;

/// Framebuffer width in pixels.
pub const DISPLAY_WIDTH: usize = 64;

/// Framebuffer height in pixels.
pub const DISPLAY_HEIGHT: usize = 32;

/// Number of pixels in the framebuffer.
pub const DISPLAY_SIZE: usize = 2048;

/// Number of general registers, and of keypad keys.
pub const NUM_REGS: usize = 16;

/// The general register file, the index register and the program counter.
pub struct Chip8Regs {
    pub index_reg: u16,
    pub pc: u16,
    pub v_regs: Vec<u8>,
}

/// The two countdown timers, decremented by an external 60 Hz driver.
pub struct Chip8Timers {
    pub delay: u8,
    pub sound: u8,
}

/// The 4096-byte address space.
pub struct Chip8Mem {
    pub memspace: Vec<u8>,
}

/// The monochrome framebuffer, row-major: the pixel at column `x` of row `y`
/// sits at index `y * 64 + x`.
pub struct Chip8DisplayData {
    pub pixels: Vec<bool>,
}

/// The whole machine: mutated exclusively by the execution engine.
pub struct Chip8 {
    pub regs: Chip8Regs,
    pub timers: Chip8Timers,
    pub disp: Chip8DisplayData,
    pub mem: Chip8Mem,
    pub stack: Vec<u16>,
    pub keys: Vec<bool>,
    pub cosmac: bool,
}

/// The mathematical model of the machine state.
#[verifier::ext_equal]
pub ghost struct MachineView {
    pub v_regs: Seq<u8>,
    pub index_reg: u16,
    pub pc: u16,
    pub mem: Seq<u8>,
    pub stack: Seq<u16>,
    pub delay: u8,
    pub sound: u8,
    pub keys: Seq<bool>,
    pub display: Seq<bool>,
    pub cosmac: bool,
}

impl View for Chip8 {
    type V = MachineView;

    open spec fn view(&self) -> MachineView {
        MachineView {
            v_regs: self.regs.v_regs@,
            index_reg: self.regs.index_reg,
            pc: self.regs.pc,
            mem: self.mem.memspace@,
            stack: self.stack@,
            delay: self.timers.delay,
            sound: self.timers.sound,
            keys: self.keys@,
            display: self.disp.pixels@,
            cosmac: self.cosmac,
        }
    }
}

impl MachineView {
    /// The fixed shape of the state: sixteen registers and keys, a 4096-byte
    /// address space and a 64-by-32 framebuffer.
    pub open spec fn wf(self) -> bool {
        &&& self.v_regs.len() == NUM_REGS
        &&& self.mem.len() == MEM_SIZE
        &&& self.keys.len() == NUM_REGS
        &&& self.display.len() == DISPLAY_SIZE
    }
}

impl Chip8 {
    /// The concrete state has the fixed shape of its model.
    pub open spec fn wf(self) -> bool {
        self@.wf()
    }
}

/// The built-in glyph font for the hex digits 0 to F: five bytes per glyph.
pub open spec fn spec_font() -> Seq<u8> {
    seq![
        0xF0u8, 0x90u8, 0x90u8, 0x90u8, 0xF0u8,
        0x20u8, 0x60u8, 0x20u8, 0x20u8, 0x70u8,
        0xF0u8, 0x10u8, 0xF0u8, 0x80u8, 0xF0u8,
        0xF0u8, 0x10u8, 0xF0u8, 0x10u8, 0xF0u8,
        0x90u8, 0x90u8, 0xF0u8, 0x10u8, 0x10u8,
        0xF0u8, 0x80u8, 0xF0u8, 0x10u8, 0xF0u8,
        0xF0u8, 0x80u8, 0xF0u8, 0x90u8, 0xF0u8,
        0xF0u8, 0x10u8, 0x20u8, 0x40u8, 0x40u8,
        0xF0u8, 0x90u8, 0xF0u8, 0x90u8, 0xF0u8,
        0xF0u8, 0x90u8, 0xF0u8, 0x10u8, 0xF0u8,
        0xF0u8, 0x90u8, 0xF0u8, 0x90u8, 0x90u8,
        0xE0u8, 0x90u8, 0xE0u8, 0x90u8, 0xE0u8,
        0xF0u8, 0x80u8, 0x80u8, 0x80u8, 0xF0u8,
        0xE0u8, 0x90u8, 0x90u8, 0x90u8, 0xE0u8,
        0xF0u8, 0x80u8, 0xF0u8, 0x80u8, 0xF0u8,
        0xF0u8, 0x80u8, 0xF0u8, 0x80u8, 0x80u8,
    ]
}

/// The glyph font as bytes.
fn font_sprites() -> (v: Vec<u8>)
    ensures
        v@ == spec_font(),
{
    let mut v: Vec<u8> = Vec::new();
    v.push(0xF0); v.push(0x90); v.push(0x90); v.push(0x90); v.push(0xF0);
    v.push(0x20); v.push(0x60); v.push(0x20); v.push(0x20); v.push(0x70);
    v.push(0xF0); v.push(0x10); v.push(0xF0); v.push(0x80); v.push(0xF0);
    v.push(0xF0); v.push(0x10); v.push(0xF0); v.push(0x10); v.push(0xF0);
    v.push(0x90); v.push(0x90); v.push(0xF0); v.push(0x10); v.push(0x10);
    v.push(0xF0); v.push(0x80); v.push(0xF0); v.push(0x10); v.push(0xF0);
    v.push(0xF0); v.push(0x80); v.push(0xF0); v.push(0x90); v.push(0xF0);
    v.push(0xF0); v.push(0x10); v.push(0x20); v.push(0x40); v.push(0x40);
    v.push(0xF0); v.push(0x90); v.push(0xF0); v.push(0x90); v.push(0xF0);
    v.push(0xF0); v.push(0x90); v.push(0xF0); v.push(0x10); v.push(0xF0);
    v.push(0xF0); v.push(0x90); v.push(0xF0); v.push(0x90); v.push(0x90);
    v.push(0xE0); v.push(0x90); v.push(0xE0); v.push(0x90); v.push(0xE0);
    v.push(0xF0); v.push(0x80); v.push(0x80); v.push(0x80); v.push(0xF0);
    v.push(0xE0); v.push(0x90); v.push(0x90); v.push(0x90); v.push(0xE0);
    v.push(0xF0); v.push(0x80); v.push(0xF0); v.push(0x80); v.push(0xF0);
    v.push(0xF0); v.push(0x80); v.push(0xF0); v.push(0x80); v.push(0x80);
    proof {
        assert(v@ =~= spec_font());
    }
    v
}

/// The state of a freshly constructed machine: memory zeroed but for the
/// font, registers, timers, stack and keypad cleared, the program counter at
/// the program load offset.
pub open spec fn spec_initial(cosmac: bool) -> MachineView {
    MachineView {
        v_regs: Seq::new(NUM_REGS as nat, |i: int| 0u8),
        index_reg: 0,
        pc: PROGRAM_OFFSET,
        mem: Seq::new(MEM_SIZE as nat, |i: int| if i < FONT_SIZE { spec_font()[i] } else { 0u8 }),
        stack: Seq::empty(),
        delay: 0,
        sound: 0,
        keys: Seq::new(NUM_REGS as nat, |i: int| false),
        display: Seq::new(DISPLAY_SIZE as nat, |i: int| false),
        cosmac,
    }
}

/// Memory after a program image is copied in at the load offset; nothing else
/// changes.
pub open spec fn spec_loaded(m: MachineView, prog: Seq<u8>) -> MachineView {
    MachineView {
        mem: Seq::new(
            m.mem.len(),
            |i: int|
                if PROGRAM_OFFSET <= i < PROGRAM_OFFSET + prog.len() {
                    prog[i - PROGRAM_OFFSET]
                } else {
                    m.mem[i]
                },
        ),
        ..m
    }
}

impl Chip8 {
    /// Construct a machine in the initial state, with the chosen
    /// compatibility mode.
    pub fn new(cosmac_compat: bool) -> (r: Chip8)
        ensures
            r.wf(),
            r@ == spec_initial(cosmac_compat),
    {
        let mut memspace: Vec<u8> = font_sprites();
        let mut i: usize = FONT_SIZE;
        while i < MEM_SIZE
            invariant
                FONT_SIZE <= i <= MEM_SIZE,
                memspace@.len() == i,
                forall|j: int| 0 <= j < FONT_SIZE ==> memspace@[j] == spec_font()[j],
                forall|j: int| FONT_SIZE <= j < i ==> memspace@[j] == 0u8,
            decreases MEM_SIZE - i,
        {
            memspace.push(0);
            i = i + 1;
        }
        let r = Chip8 {
            regs: Chip8Regs { index_reg: 0, pc: PROGRAM_OFFSET, v_regs: vec![0u8; NUM_REGS] },
            timers: Chip8Timers { delay: 0, sound: 0 },
            disp: Chip8DisplayData { pixels: vec![false; DISPLAY_SIZE] },
            mem: Chip8Mem { memspace },
            stack: Vec::new(),
            keys: vec![false; NUM_REGS],
            cosmac: cosmac_compat,
        };
        proof {
            assert(r@ =~= spec_initial(cosmac_compat));
        }
        r
    }

    /// Copy a program image into memory at the load offset.  Fails, changing
    /// nothing, when the image does not fit below the end of memory.
    pub fn load_program(&mut self, program: &Vec<u8>) -> (r: Result<(), crate::errors::LoadError>)
        requires
            old(self).wf(),
        ensures
            final(self).wf(),
            r is Ok <==> program@.len() <= MEM_SIZE - PROGRAM_OFFSET,
            r is Ok ==> final(self)@ == spec_loaded(old(self)@, program@),
            r is Err ==> r == Err::<(), crate::errors::LoadError>(crate::errors::LoadError::TooLarge)
                && final(self)@ == old(self)@,
    {
        if program.len() > MEM_SIZE - (PROGRAM_OFFSET as usize) {
            return Err(crate::errors::LoadError::TooLarge);
        }
        let base: usize = PROGRAM_OFFSET as usize;
        let mut i: usize = 0;
        while i < program.len()
            invariant
                old(self).wf(),
                self.wf(),
                base == PROGRAM_OFFSET,
                0 <= i <= program@.len(),
                program@.len() <= MEM_SIZE - PROGRAM_OFFSET,
                self.regs == old(self).regs,
                self.timers == old(self).timers,
                self.disp == old(self).disp,
                self.stack == old(self).stack,
                self.keys == old(self).keys,
                self.cosmac == old(self).cosmac,
                forall|j: int| base <= j < base + i ==> self.mem.memspace@[j] == program@[j - base],
                forall|j: int|
                    (0 <= j < base || base + i <= j < MEM_SIZE) ==> self.mem.memspace@[j] == old(
                        self,
                    ).mem.memspace@[j],
            decreases program@.len() - i,
        {
            self.mem.memspace.set(base + i, program[i]);
            i = i + 1;
        }
        proof {
            assert(self@ =~= spec_loaded(old(self)@, program@));
        }
        Ok(())
    }

    /// Decrement each countdown timer that is nonzero; touch nothing else.
    /// Meant to be driven at 60 Hz, independently of instruction stepping.
    pub fn tick_timers(&mut self)
        ensures
            final(self)@ == (MachineView {
                delay: if old(self)@.delay > 0 { (old(self)@.delay - 1) as u8 } else { 0u8 },
                sound: if old(self)@.sound > 0 { (old(self)@.sound - 1) as u8 } else { 0u8 },
                ..old(self)@
            }),
    {
        if self.timers.delay > 0 {
            self.timers.delay = self.timers.delay - 1;
        }
        if self.timers.sound > 0 {
            self.timers.sound = self.timers.sound - 1;
        }
        proof {
            assert(self@ =~= (MachineView {
                delay: if old(self)@.delay > 0 { (old(self)@.delay - 1) as u8 } else { 0u8 },
                sound: if old(self)@.sound > 0 { (old(self)@.sound - 1) as u8 } else { 0u8 },
                ..old(self)@
            }));
        }
    }

    /// Record a key transition from the presentation side.
    pub fn set_key(&mut self, index: u8, pressed: bool)
        requires
            old(self).wf(),
            index < NUM_REGS,
        ensures
            final(self).wf(),
            final(self)@ == (MachineView {
                keys: old(self)@.keys.update(index as int, pressed),
                ..old(self)@
            }),
    {
        self.keys.set(index as usize, pressed);
        proof {
            assert(self@ =~= (MachineView {
                keys: old(self)@.keys.update(index as int, pressed),
                ..old(self)@
            }));
        }
    }

    /// Read one keypad state.
    pub fn get_key(&self, key: u8) -> (r: bool)
        requires
            self.wf(),
            key < NUM_REGS,
        ensures
            r == self@.keys[key as int],
    {
        self.keys[key as usize]
    }

    /// Read one general register.
    pub fn get_reg(&self, reg: u8) -> (r: u8)
        requires
            self.wf(),
            reg < NUM_REGS,
        ensures
            r == self@.v_regs[reg as int],
    {
        self.regs.v_regs[reg as usize]
    }

    /// Write one general register.
    pub fn set_reg(&mut self, reg: u8, val: u8)
        requires
            old(self).wf(),
            reg < NUM_REGS,
        ensures
            final(self).wf(),
            final(self)@ == (MachineView {
                v_regs: old(self)@.v_regs.update(reg as int, val),
                ..old(self)@
            }),
    {
        self.regs.v_regs.set(reg as usize, val);
        proof {
            assert(self@ =~= (MachineView {
                v_regs: old(self)@.v_regs.update(reg as int, val),
                ..old(self)@
            }));
        }
    }

    /// A read-only copy of the current pixel state, for the presentation side.
    pub fn framebuffer_snapshot(&self) -> (r: Chip8DisplayData)
        requires
            self.wf(),
        ensures
            r.pixels@ == self@.display,
    {
        let mut pixels: Vec<bool> = Vec::new();
        let mut i: usize = 0;
        while i < DISPLAY_SIZE
            invariant
                0 <= i <= DISPLAY_SIZE,
                self.wf(),
                pixels@.len() == i,
                forall|j: int| 0 <= j < i ==> pixels@[j] == self@.display[j],
            decreases DISPLAY_SIZE - i,
        {
            pixels.push(self.disp.pixels[i]);
            i = i + 1;
        }
        let r = Chip8DisplayData { pixels };
        proof {
            assert(r.pixels@ =~= self@.display);
        }
        r
    }
}


/// The first `cols` characters of a rendered framebuffer row: a marker for a
/// set pixel, a space for a clear one.
pub open spec fn spec_render_row_prefix(d: Seq<bool>, row: int, cols: nat) -> Seq<char> {
    Seq::new(cols, |c: int| if d[row * 64 + c] { '#' } else { ' ' })
}

/// One rendered framebuffer row: sixty-four pixel characters and a newline.
pub open spec fn spec_render_row(d: Seq<bool>, row: int) -> Seq<char> {
    spec_render_row_prefix(d, row, 64).push('\n')
}

/// The first `rows` rendered framebuffer rows, top to bottom.
pub open spec fn spec_render_rows(d: Seq<bool>, rows: int) -> Seq<char>
    decreases rows,
{
    if rows <= 0 {
        Seq::empty()
    } else {
        spec_render_rows(d, rows - 1) + spec_render_row(d, rows - 1)
    }
}

/// The whole framebuffer rendered as text, one line per pixel row.
pub open spec fn spec_render(d: Seq<bool>) -> Seq<char> {
    spec_render_rows(d, DISPLAY_HEIGHT as int)
}

impl Chip8 {
    /// Render the framebuffer as text for inspection: one line per pixel
    /// row, a marker for each set pixel and a space for each clear one.
    pub fn dbg_display(&self) -> (s: String)
        requires
            self.wf(),
        ensures
            s@ == spec_render(self@.display),
    {
        let ghost d = self@.display;
        let mut s = String::new();
        let mut row: usize = 0;
        while row < DISPLAY_HEIGHT
            invariant
                self.wf(),
                d == self@.display,
                0 <= row <= DISPLAY_HEIGHT,
                s@ == spec_render_rows(d, row as int),
            decreases DISPLAY_HEIGHT - row,
        {
            let mut col: usize = 0;
            while col < DISPLAY_WIDTH
                invariant
                    self.wf(),
                    d == self@.display,
                    0 <= row < DISPLAY_HEIGHT,
                    0 <= col <= DISPLAY_WIDTH,
                    s@ == spec_render_rows(d, row as int) + spec_render_row_prefix(
                        d,
                        row as int,
                        col as nat,
                    ),
                decreases DISPLAY_WIDTH - col,
            {
                let hot: bool = self.disp.pixels[row * DISPLAY_WIDTH + col];
                if hot {
                    s.append("#");
                } else {
                    s.append(" ");
                }
                proof {
                    reveal_strlit("#");
                    reveal_strlit(" ");
                    assert(s@ =~= spec_render_rows(d, row as int) + spec_render_row_prefix(
                        d,
                        row as int,
                        (col + 1) as nat,
                    ));
                }
                col = col + 1;
            }
            s.append("\n");
            proof {
                reveal_strlit("\n");
                assert(spec_render_row_prefix(d, row as int, 64).push('\n') =~=
                    spec_render_row_prefix(d, row as int, 64) + Seq::empty().push('\n'));
                assert(s@ =~= spec_render_rows(d, row as int + 1));
            }
            row = row + 1;
        }
        s
    }
}

} // verus!
