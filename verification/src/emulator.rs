//! The machine state and the execution engine: construction, program
//! loading, key updates, the timer tick, and the fetch-decode-execute
//! step, each proved to follow the model in `semantics`.

use vstd::prelude::*;

use crate::decode::Instr;
use crate::decode::decode;
use crate::semantics::EmuError;
use crate::semantics::STACK_CAP;
use crate::semantics::StepOutcome;
use crate::semantics::advanced;
use crate::semantics::any_key_down;
use crate::semantics::draw_collision;
use crate::semantics::draw_gfx;
use crate::semantics::draw_hits;
use crate::semantics::draw_rows;
use crate::semantics::fetched_word;
use crate::semantics::is_lowest_pressed;
use crate::semantics::lemma_any_key_down;
use crate::semantics::lemma_cell_index;
use crate::semantics::lemma_lowest_pressed;
use crate::semantics::spec_exec_instr;
use crate::semantics::spec_step;
use crate::semantics::sprite_bit;
use crate::semantics::EmuView;
use crate::semantics::FONT_BYTES;
use crate::semantics::MEM_SIZE;
use crate::semantics::NUM_KEYS;
use crate::semantics::NUM_REGS;
use crate::semantics::PROGRAM_START;
use crate::semantics::SCREEN_PIXELS;
use crate::semantics::SCREEN_W;
use crate::semantics::SCREEN_H;
use crate::semantics::font_seq;
use crate::semantics::loaded_mem;

verus! {

/// The machine state. The execution engine is the only code that mutates
/// it once a program is loaded; a renderer and an input layer read the
/// framebuffer and write the key flags through the accessors below.
pub struct Emulator {
    gfx: Vec<bool>,
    gfx_updated: bool,
    keypress: Vec<bool>,
    mem: Vec<u8>,
    stack: Vec<u16>,
    v: Vec<u8>,
    i: u16,
    pc: u16,
    delay_timer: u8,
    sound_timer: u8,
}

impl View for Emulator {
    type V = EmuView;

    closed spec fn view(&self) -> EmuView {
        EmuView {
            mem: self.mem@,
            regs: self.v@,
            stack: self.stack@,
            gfx: self.gfx@,
            keys: self.keypress@,
            pc: self.pc,
            index: self.i,
            delay: self.delay_timer,
            sound: self.sound_timer,
            gfx_updated: self.gfx_updated,
        }
    }
}

/// A vector holding `n` copies of `val`.
fn filled<T: Copy>(n: usize, val: T) -> (v: Vec<T>)
    ensures
        v@ =~= Seq::new(n as nat, |k: int| val),
{
    let mut v: Vec<T> = Vec::new();
    let mut k: usize = 0;
    while k < n
        invariant
            k <= n,
            v@ =~= Seq::new(k as nat, |j: int| val),
        decreases n - k,
    {
        v.push(val);
        k = k + 1;
    }
    v
}

/// The built-in character-sprite table as bytes, exactly `font_seq`.
fn font_table() -> (v: Vec<u8>)
    ensures
        v@ =~= font_seq(),
{
    let mut v: Vec<u8> = Vec::new();
    v.push(0xf0); v.push(0x90); v.push(0x90); v.push(0x90); v.push(0xf0);
    v.push(0x20); v.push(0x60); v.push(0x20); v.push(0x20); v.push(0x70);
    v.push(0xf0); v.push(0x10); v.push(0xf0); v.push(0x80); v.push(0xf0);
    v.push(0xf0); v.push(0x10); v.push(0xf0); v.push(0x10); v.push(0xf0);
    v.push(0x90); v.push(0x90); v.push(0xf0); v.push(0x10); v.push(0x10);
    v.push(0xf0); v.push(0x80); v.push(0xf0); v.push(0x10); v.push(0xf0);
    v.push(0xf0); v.push(0x80); v.push(0xf0); v.push(0x90); v.push(0xf0);
    v.push(0xf0); v.push(0x10); v.push(0x20); v.push(0x40); v.push(0x40);
    v.push(0xf0); v.push(0x90); v.push(0xf0); v.push(0x90); v.push(0xf0);
    v.push(0xf0); v.push(0x90); v.push(0xf0); v.push(0x10); v.push(0xf0);
    v.push(0xf0); v.push(0x90); v.push(0xf0); v.push(0x90); v.push(0x90);
    v.push(0xe0); v.push(0x90); v.push(0xe0); v.push(0x90); v.push(0xe0);
    v.push(0xf0); v.push(0x80); v.push(0x80); v.push(0x80); v.push(0xf0);
    v.push(0xe0); v.push(0x90); v.push(0x90); v.push(0x90); v.push(0xe0);
    v.push(0xf0); v.push(0x80); v.push(0xf0); v.push(0x80); v.push(0xf0);
    v.push(0xf0); v.push(0x80); v.push(0xf0); v.push(0x80); v.push(0x80);
    v
}

impl Emulator {
    /// Whether the concrete state has the shapes `EmuView::wf` asks for.
    pub open spec fn wf(&self) -> bool {
        self@.wf()
    }

    /// A machine with all-zero registers, memory, stack and timers, an
    /// all-off framebuffer and key state, and the program counter at 0.
    pub fn new() -> (r: Emulator)
        ensures
            r.wf(),
            r@ =~= EmuView::initial(),
    {
        Emulator {
            gfx: filled(SCREEN_PIXELS, false),
            gfx_updated: false,
            keypress: filled(NUM_KEYS, false),
            mem: filled(MEM_SIZE, 0u8),
            stack: Vec::new(),
            v: filled(NUM_REGS, 0u8),
            i: 0,
            pc: 0,
            delay_timer: 0,
            sound_timer: 0,
        }
    }

    /// Zero all registers, memory, stack and timers, clear the
    /// framebuffer and key state, and point the program counter at the
    /// program entry address. The framebuffer is marked changed so a
    /// renderer repaints the cleared screen.
    pub fn reset(&mut self)
        requires
            old(self).wf(),
        ensures
            final(self).wf(),
            final(self)@ =~= (EmuView {
                pc: PROGRAM_START as u16,
                gfx_updated: true,
                ..EmuView::initial()
            }),
    {
        self.gfx = filled(SCREEN_PIXELS, false);
        self.gfx_updated = true;
        self.keypress = filled(NUM_KEYS, false);
        self.mem = filled(MEM_SIZE, 0u8);
        self.stack = Vec::new();
        self.v = filled(NUM_REGS, 0u8);
        self.i = 0;
        self.pc = 0x200;
        self.delay_timer = 0;
        self.sound_timer = 0;
    }

    /// Install a program image: the bytes go to memory from
    /// `PROGRAM_START` on, and the sprite table goes to the first 80
    /// bytes, unconditionally. An image that does not fit in memory is
    /// refused whole, leaving the state untouched.
    pub fn load_program(&mut self, bytes: &Vec<u8>) -> (r: Result<(), EmuError>)
        requires
            old(self).wf(),
        ensures
            final(self).wf(),
            if bytes@.len() <= MEM_SIZE - PROGRAM_START {
                r == Ok::<(), EmuError>(()) && final(self)@ =~= (EmuView {
                    mem: loaded_mem(old(self)@.mem, bytes@),
                    ..old(self)@
                })
            } else {
                r == Err::<(), EmuError>(EmuError::OutOfMemory) && final(self)@ == old(self)@
            },
    {
        if bytes.len() > MEM_SIZE - PROGRAM_START {
            return Err(EmuError::OutOfMemory);
        }
        let ghost s0 = self@;
        let mut k: usize = 0;
        while k < bytes.len()
            invariant
                self.wf(),
                s0.wf(),
                bytes@.len() <= MEM_SIZE - PROGRAM_START,
                k <= bytes@.len(),
                self@ == (EmuView { mem: self@.mem, ..s0 }),
                self@.mem.len() == MEM_SIZE,
                forall|j: int|
                    0 <= j < MEM_SIZE ==> self@.mem[j] == (if PROGRAM_START <= j
                        < PROGRAM_START + k {
                        bytes@[j - PROGRAM_START]
                    } else {
                        s0.mem[j]
                    }),
            decreases bytes@.len() - k,
        {
            self.mem.set(PROGRAM_START + k, bytes[k]);
            k = k + 1;
        }
        let font = font_table();
        let mut j: usize = 0;
        while j < FONT_BYTES
            invariant
                self.wf(),
                s0.wf(),
                bytes@.len() <= MEM_SIZE - PROGRAM_START,
                j <= FONT_BYTES,
                font@ =~= font_seq(),
                self@ == (EmuView { mem: self@.mem, ..s0 }),
                self@.mem.len() == MEM_SIZE,
                forall|k2: int|
                    0 <= k2 < MEM_SIZE ==> self@.mem[k2] == (if k2 < j {
                        font_seq()[k2]
                    } else if PROGRAM_START <= k2 < PROGRAM_START + bytes@.len() {
                        bytes@[k2 - PROGRAM_START]
                    } else {
                        s0.mem[k2]
                    }),
            decreases FONT_BYTES - j,
        {
            self.mem.set(j, font[j]);
            j = j + 1;
        }
        proof {
            assert(self@.mem =~= loaded_mem(s0.mem, bytes@));
        }
        Ok(())
    }

    /// Point the program counter at the entry address, mark the
    /// framebuffer changed, and install the program image as
    /// `load_program` does. An image that does not fit is refused
    /// whole, leaving the state untouched.
    pub fn init(&mut self, bytes: &Vec<u8>) -> (r: Result<(), EmuError>)
        requires
            old(self).wf(),
        ensures
            final(self).wf(),
            if bytes@.len() <= MEM_SIZE - PROGRAM_START {
                r == Ok::<(), EmuError>(()) && final(self)@ =~= (EmuView {
                    pc: PROGRAM_START as u16,
                    gfx_updated: true,
                    mem: loaded_mem(old(self)@.mem, bytes@),
                    ..old(self)@
                })
            } else {
                r == Err::<(), EmuError>(EmuError::OutOfMemory) && final(self)@ == old(self)@
            },
    {
        if bytes.len() > MEM_SIZE - PROGRAM_START {
            return Err(EmuError::OutOfMemory);
        }
        self.pc = 0x200;
        self.gfx_updated = true;
        self.load_program(bytes).unwrap();
        Ok(())
    }

    /// Update one key flag. A key index outside the keypad is refused
    /// and nothing changes.
    pub fn set_key(&mut self, index: usize, pressed: bool) -> (r: Result<(), EmuError>)
        requires
            old(self).wf(),
        ensures
            final(self).wf(),
            if index < NUM_KEYS {
                r == Ok::<(), EmuError>(()) && final(self)@ =~= (EmuView {
                    keys: old(self)@.keys.update(index as int, pressed),
                    ..old(self)@
                })
            } else {
                r == Err::<(), EmuError>(EmuError::InvalidKeyIndex) && final(self)@ == old(self)@
            },
    {
        if index >= NUM_KEYS {
            return Err(EmuError::InvalidKeyIndex);
        }
        self.keypress.set(index, pressed);
        Ok(())
    }

    /// Read one framebuffer pixel (`true` means on).
    pub fn pixel(&self, row: usize, col: usize) -> (r: bool)
        requires
            self.wf(),
            row < SCREEN_H,
            col < SCREEN_W,
        ensures
            r == self@.gfx[row * 64 + col],
    {
        self.gfx[row * 64 + col]
    }

    /// Whether the framebuffer changed during the last step (or load),
    /// so a renderer can skip redrawing when nothing did.
    pub fn gfx_updated(&self) -> (r: bool)
        ensures
            r == self@.gfx_updated,
    {
        self.gfx_updated
    }

    /// Read one general-purpose register.
    pub fn register(&self, idx: usize) -> (r: u8)
        requires
            self.wf(),
            idx < NUM_REGS,
        ensures
            r == self@.regs[idx as int],
    {
        self.v[idx]
    }

    /// The program counter.
    pub fn pc(&self) -> (r: u16)
        ensures
            r == self@.pc,
    {
        self.pc
    }

    /// The index register.
    pub fn index_reg(&self) -> (r: u16)
        ensures
            r == self@.index,
    {
        self.i
    }

    /// The delay timer.
    pub fn delay_timer(&self) -> (r: u8)
        ensures
            r == self@.delay,
    {
        self.delay_timer
    }

    /// The sound timer; a tone should be audible while it is above zero.
    pub fn sound_timer(&self) -> (r: u8)
        ensures
            r == self@.sound,
    {
        self.sound_timer
    }

    /// Read one memory byte.
    pub fn read_byte(&self, addr: usize) -> (r: u8)
        requires
            self.wf(),
            addr < MEM_SIZE,
        ensures
            r == self@.mem[addr as int],
    {
        self.mem[addr]
    }

    /// Overwrite one memory byte; meant for building test fixtures and
    /// diagnostics, not for running programs.
    pub fn write_byte(&mut self, addr: usize, val: u8)
        requires
            old(self).wf(),
            addr < MEM_SIZE,
        ensures
            final(self).wf(),
            final(self)@ =~= (EmuView { mem: old(self)@.mem.update(addr as int, val), ..old(self)@ }),
    {
        self.mem.set(addr, val);
    }

    /// Overwrite one general-purpose register; meant for building test
    /// fixtures and diagnostics, not for running programs.
    pub fn set_register(&mut self, idx: usize, val: u8)
        requires
            old(self).wf(),
            idx < NUM_REGS,
        ensures
            final(self).wf(),
            final(self)@ =~= (EmuView { regs: old(self)@.regs.update(idx as int, val), ..old(self)@ }),
    {
        self.v.set(idx, val);
    }

    /// Decrement each timer that is above zero; a timer at zero stays
    /// at zero. Nothing else changes.
    pub fn tick_timers(&mut self)
        requires
            old(self).wf(),
        ensures
            final(self).wf(),
            final(self)@ =~= (EmuView {
                delay: if old(self)@.delay > 0 { (old(self)@.delay - 1) as u8 } else { 0u8 },
                sound: if old(self)@.sound > 0 { (old(self)@.sound - 1) as u8 } else { 0u8 },
                ..old(self)@
            }),
    {
        if self.delay_timer > 0 {
            self.delay_timer = self.delay_timer - 1;
        }
        if self.sound_timer > 0 {
            self.sound_timer = self.sound_timer - 1;
        }
    }

    /// Set every framebuffer pixel to off and mark the screen changed.
    fn op_clear(&mut self)
        requires
            old(self).wf(),
        ensures
            final(self).wf(),
            Ok::<EmuView, EmuError>(final(self)@) == spec_exec_instr(
                old(self)@,
                Instr::ClearScreen,
                0,
            ),
    {
        let ghost s0 = self@;
        let mut k: usize = 0;
        while k < SCREEN_PIXELS
            invariant
                self.wf(),
                k <= SCREEN_PIXELS,
                self@ == (EmuView { gfx: self@.gfx, ..s0 }),
                self@.gfx.len() == SCREEN_PIXELS,
                forall|j: int| 0 <= j < k ==> !self@.gfx[j],
            decreases SCREEN_PIXELS - k,
        {
            self.gfx.set(k, false);
            k = k + 1;
        }
        self.gfx_updated = true;
        proof {
            assert(self@.gfx =~= Seq::new(SCREEN_PIXELS as nat, |j: int| false));
        }
    }

    /// Write the decimal digits of register x at the index register.
    fn op_store_bcd(&mut self, x: u8) -> (r: Result<(), EmuError>)
        requires
            old(self).wf(),
            x < 16,
        ensures
            final(self).wf(),
            match spec_exec_instr(old(self)@, Instr::StoreBcd(x), 0) {
                Ok(sv) => r == Ok::<(), EmuError>(()) && final(self)@ == sv,
                Err(e) => r == Err::<(), EmuError>(e) && final(self)@ == old(self)@,
            },
    {
        let i0 = self.i as usize;
        if i0 + 2 >= MEM_SIZE {
            return Err(EmuError::MemoryOutOfBounds);
        }
        let val = self.v[x as usize];
        self.mem.set(i0, val / 100 % 10);
        self.mem.set(i0 + 1, val / 10 % 10);
        self.mem.set(i0 + 2, val % 10);
        Ok(())
    }

    /// Write registers 0 through x to memory at the index register,
    /// then advance the index register past them.
    fn op_store_regs(&mut self, x: u8) -> (r: Result<(), EmuError>)
        requires
            old(self).wf(),
            x < 16,
        ensures
            final(self).wf(),
            match spec_exec_instr(old(self)@, Instr::StoreRegs(x), 0) {
                Ok(sv) => r == Ok::<(), EmuError>(()) && final(self)@ == sv,
                Err(e) => r == Err::<(), EmuError>(e) && final(self)@ == old(self)@,
            },
    {
        let i0 = self.i as usize;
        let cnt = x as usize + 1;
        if i0 + cnt > MEM_SIZE {
            return Err(EmuError::MemoryOutOfBounds);
        }
        let ghost s0 = self@;
        let mut j: usize = 0;
        while j < cnt
            invariant
                self.wf(),
                s0.wf(),
                j <= cnt,
                cnt == x as int + 1,
                x < 16,
                i0 == s0.index,
                i0 + cnt <= MEM_SIZE,
                self@ == (EmuView { mem: self@.mem, ..s0 }),
                self@.mem.len() == MEM_SIZE,
                forall|k: int|
                    0 <= k < MEM_SIZE ==> self@.mem[k] == (if i0 <= k < i0 + j {
                        s0.regs[k - i0]
                    } else {
                        s0.mem[k]
                    }),
            decreases cnt - j,
        {
            let b = self.v[j];
            self.mem.set(i0 + j, b);
            j = j + 1;
        }
        self.i = self.i + (x as u16) + 1;
        proof {
            let sv = spec_exec_instr(s0, Instr::StoreRegs(x), 0).unwrap();
            assert(self@.mem =~= sv.mem);
            assert(self@ =~= sv);
        }
        Ok(())
    }

    /// Fill registers 0 through x from memory at the index register,
    /// then advance the index register past the bytes read.
    fn op_load_regs(&mut self, x: u8) -> (r: Result<(), EmuError>)
        requires
            old(self).wf(),
            x < 16,
        ensures
            final(self).wf(),
            match spec_exec_instr(old(self)@, Instr::LoadRegs(x), 0) {
                Ok(sv) => r == Ok::<(), EmuError>(()) && final(self)@ == sv,
                Err(e) => r == Err::<(), EmuError>(e) && final(self)@ == old(self)@,
            },
    {
        let i0 = self.i as usize;
        let cnt = x as usize + 1;
        if i0 + cnt > MEM_SIZE {
            return Err(EmuError::MemoryOutOfBounds);
        }
        let ghost s0 = self@;
        let mut j: usize = 0;
        while j < cnt
            invariant
                self.wf(),
                s0.wf(),
                j <= cnt,
                cnt == x as int + 1,
                x < 16,
                i0 == s0.index,
                i0 + cnt <= MEM_SIZE,
                self@ == (EmuView { regs: self@.regs, ..s0 }),
                self@.regs.len() == NUM_REGS,
                forall|k: int|
                    0 <= k < NUM_REGS ==> self@.regs[k] == (if 0 <= k < j {
                        s0.mem[i0 + k]
                    } else {
                        s0.regs[k]
                    }),
            decreases cnt - j,
        {
            let b = self.mem[i0 + j];
            self.v.set(j, b);
            j = j + 1;
        }
        self.i = self.i + (x as u16) + 1;
        proof {
            let sv = spec_exec_instr(s0, Instr::LoadRegs(x), 0).unwrap();
            assert(self@.regs =~= sv.regs);
            assert(self@ =~= sv);
        }
        Ok(())
    }

    /// XOR-composite a sprite onto the framebuffer, clipping at the
    /// right and bottom edges, and report in register 0xF whether any
    /// pixel flipped from on to off. Reading sprite rows past the end
    /// of memory is refused before anything is drawn.
    fn op_draw(&mut self, x: u8, y: u8, n: u8) -> (r: Result<(), EmuError>)
        requires
            old(self).wf(),
            x < 16,
            y < 16,
            n < 16,
        ensures
            final(self).wf(),
            match spec_exec_instr(old(self)@, Instr::Draw(x, y, n), 0) {
                Ok(sv) => r == Ok::<(), EmuError>(()) && final(self)@ == sv,
                Err(e) => r == Err::<(), EmuError>(e) && final(self)@ == old(self)@,
            },
    {
        let ghost s0 = self@;
        let cx = (self.v[x as usize] % 64) as usize;
        let cy = (self.v[y as usize] % 32) as usize;
        let nn = n as usize;
        let rows = if nn < SCREEN_H - cy {
            nn
        } else {
            SCREEN_H - cy
        };
        let i0 = self.i as usize;
        proof {
            assert(rows == draw_rows(cy as int, n as int));
        }
        if rows > 0 && i0 + rows > MEM_SIZE {
            return Err(EmuError::MemoryOutOfBounds);
        }
        let cols = if 64 - cx > 8 {
            8
        } else {
            64 - cx
        };
        let mut collision = false;
        let mut dr: usize = 0;
        while dr < rows
            invariant
                self.wf(),
                s0.wf(),
                dr <= rows,
                cx == s0.regs[x as int] % 64,
                cy == s0.regs[y as int] % 32,
                cx < SCREEN_W,
                cy < SCREEN_H,
                nn == n as int,
                n < 16,
                rows == draw_rows(cy as int, nn as int),
                rows <= nn,
                cy + rows <= SCREEN_H,
                rows > 0 ==> i0 + rows <= MEM_SIZE,
                i0 == s0.index,
                cols <= 8,
                cx + cols <= SCREEN_W,
                (cols == 8 || cx + cols == SCREEN_W),
                self@ == (EmuView { gfx: self@.gfx, ..s0 }),
                self@.gfx.len() == SCREEN_PIXELS,
                forall|k: int|
                    0 <= k < SCREEN_PIXELS ==> self@.gfx[k] == (if k / 64 < cy + dr && draw_hits(
                        s0.mem,
                        i0 as int,
                        cx as int,
                        cy as int,
                        nn as int,
                        k / 64,
                        k % 64,
                    ) {
                        !s0.gfx[k]
                    } else {
                        s0.gfx[k]
                    }),
                collision <==> (exists|rr: int, cc: int|
                    rr < cy + dr && draw_hits(
                        s0.mem,
                        i0 as int,
                        cx as int,
                        cy as int,
                        nn as int,
                        rr,
                        cc,
                    ) && s0.gfx[rr * 64 + cc]),
            decreases rows - dr,
        {
            let byte = self.mem[i0 + dr];
            let mut dc: usize = 0;
            while dc < cols
                invariant
                    self.wf(),
                    s0.wf(),
                    dr < rows,
                    dc <= cols,
                    cx < SCREEN_W,
                    cy < SCREEN_H,
                    nn == n as int,
                    n < 16,
                    rows <= nn,
                    cy + rows <= SCREEN_H,
                    i0 + rows <= MEM_SIZE,
                    i0 == s0.index,
                    cols <= 8,
                    cx + cols <= SCREEN_W,
                    (cols == 8 || cx + cols == SCREEN_W),
                    byte == s0.mem[i0 + dr],
                    self@ == (EmuView { gfx: self@.gfx, ..s0 }),
                    self@.gfx.len() == SCREEN_PIXELS,
                    forall|k: int|
                        0 <= k < SCREEN_PIXELS ==> self@.gfx[k] == (if (k / 64 < cy + dr || (k / 64
                            == cy + dr && k % 64 < cx + dc)) && draw_hits(
                            s0.mem,
                            i0 as int,
                            cx as int,
                            cy as int,
                            nn as int,
                            k / 64,
                            k % 64,
                        ) {
                            !s0.gfx[k]
                        } else {
                            s0.gfx[k]
                        }),
                    collision <==> (exists|rr: int, cc: int|
                        (rr < cy + dr || (rr == cy + dr && cc < cx + dc)) && draw_hits(
                            s0.mem,
                            i0 as int,
                            cx as int,
                            cy as int,
                            nn as int,
                            rr,
                            cc,
                        ) && s0.gfx[rr * 64 + cc]),
                decreases cols - dc,
            {
                let sh: u8 = (7 - dc) as u8;
                let bit = byte & (1u8 << sh) != 0;
                let kk = (cy + dr) * 64 + (cx + dc);
                proof {
                    lemma_cell_index((cy + dr) as int, (cx + dc) as int);
                    assert(bit == sprite_bit(s0.mem[i0 + dr], dc as int));
                    assert(kk < SCREEN_PIXELS);
                }
                if bit {
                    let before = self.gfx[kk];
                    self.gfx.set(kk, !before);
                    if before {
                        collision = true;
                        proof {
                            assert(draw_hits(
                                s0.mem,
                                i0 as int,
                                cx as int,
                                cy as int,
                                nn as int,
                                (cy + dr) as int,
                                (cx + dc) as int,
                            ));
                        }
                    }
                }
                dc = dc + 1;
            }
            dr = dr + 1;
        }
        self.v.set(15, if collision { 1 } else { 0 });
        self.gfx_updated = true;
        proof {
            let gi = i0 as int;
            assert(self@.gfx =~= draw_gfx(s0.gfx, s0.mem, gi, cx as int, cy as int, nn as int));
            assert(collision == draw_collision(s0.gfx, s0.mem, gi, cx as int, cy as int, nn as int));
            let sv = spec_exec_instr(s0, Instr::Draw(x, y, n), 0).unwrap();
            assert(self@ =~= sv);
        }
        Ok(())
    }

    /// If some key is down, store the lowest pressed key in register x;
    /// otherwise rewind the program counter so the instruction repeats
    /// on the next step.
    fn op_wait_key(&mut self, x: u8)
        requires
            old(self).wf(),
            x < 16,
            old(self)@.pc >= 2,
        ensures
            final(self).wf(),
            Ok::<EmuView, EmuError>(final(self)@) == spec_exec_instr(
                old(self)@,
                Instr::WaitKey(x),
                0,
            ),
    {
        let ghost s0 = self@;
        let mut pressed: usize = NUM_KEYS;
        let mut k: usize = 0;
        while k < NUM_KEYS && pressed == NUM_KEYS
            invariant
                self.wf(),
                s0.wf(),
                self@ == s0,
                k <= NUM_KEYS,
                pressed <= NUM_KEYS,
                pressed == NUM_KEYS ==> forall|m: int| 0 <= m < k ==> !s0.keys[m],
                pressed < NUM_KEYS ==> is_lowest_pressed(s0.keys, pressed as int),
            decreases NUM_KEYS - k,
        {
            if self.keypress[k] {
                pressed = k;
            }
            k = k + 1;
        }
        if pressed < NUM_KEYS {
            proof {
                lemma_any_key_down(s0.keys, pressed as int);
                lemma_lowest_pressed(s0.keys, pressed as int);
            }
            self.v.set(x as usize, pressed as u8);
        } else {
            proof {
                assert(!any_key_down(s0.keys));
            }
            self.pc = self.pc - 2;
        }
    }

    /// Execute one decoded instruction on the state whose program
    /// counter has already advanced past it, exactly as
    /// `spec_exec_instr` says; on an error nothing changes.
    fn exec_instr(&mut self, instr: Instr, rnd: u8) -> (r: Result<(), EmuError>)
        requires
            old(self).wf(),
            instr.wf(),
            2 <= old(self)@.pc <= MEM_SIZE,
        ensures
            final(self).wf(),
            match spec_exec_instr(old(self)@, instr, rnd) {
                Ok(sv) => r == Ok::<(), EmuError>(()) && final(self)@ == sv,
                Err(e) => r == Err::<(), EmuError>(e) && final(self)@ == old(self)@,
            },
    {
        match instr {
            Instr::ClearScreen => {
                self.op_clear();
                Ok(())
            },
            Instr::Return => {
                if self.stack.len() == 0 {
                    return Err(EmuError::StackUnderflow);
                }
                let a = self.stack.pop().unwrap();
                self.pc = a;
                Ok(())
            },
            Instr::Jump(nnn) => {
                self.pc = nnn;
                Ok(())
            },
            Instr::Call(nnn) => {
                if self.stack.len() >= STACK_CAP {
                    return Err(EmuError::StackOverflow);
                }
                self.stack.push(self.pc);
                self.pc = nnn;
                Ok(())
            },
            Instr::SkipEqImm(x, nn) => {
                if self.v[x as usize] == nn {
                    self.pc = self.pc + 2;
                }
                Ok(())
            },
            Instr::SkipNeImm(x, nn) => {
                if self.v[x as usize] != nn {
                    self.pc = self.pc + 2;
                }
                Ok(())
            },
            Instr::SkipEqReg(x, y) => {
                if self.v[x as usize] == self.v[y as usize] {
                    self.pc = self.pc + 2;
                }
                Ok(())
            },
            Instr::SetImm(x, nn) => {
                self.v.set(x as usize, nn);
                Ok(())
            },
            Instr::AddImm(x, nn) => {
                let a = self.v[x as usize];
                let sum = a as u16 + nn as u16;
                self.v.set(x as usize, (sum % 256) as u8);
                Ok(())
            },
            Instr::Move(x, y) => {
                let b = self.v[y as usize];
                self.v.set(x as usize, b);
                Ok(())
            },
            Instr::Or(x, y) => {
                let b = self.v[x as usize] | self.v[y as usize];
                self.v.set(x as usize, b);
                Ok(())
            },
            Instr::And(x, y) => {
                let b = self.v[x as usize] & self.v[y as usize];
                self.v.set(x as usize, b);
                Ok(())
            },
            Instr::Xor(x, y) => {
                let b = self.v[x as usize] ^ self.v[y as usize];
                self.v.set(x as usize, b);
                Ok(())
            },
            Instr::AddRegs(x, y) => {
                let a = self.v[x as usize];
                let b = self.v[y as usize];
                let sum = a as u16 + b as u16;
                self.v.set(x as usize, (sum % 256) as u8);
                self.v.set(15, if sum >= 256 { 1 } else { 0 });
                Ok(())
            },
            Instr::SubRegs(x, y) => {
                let a = self.v[x as usize];
                let b = self.v[y as usize];
                if a >= b {
                    self.v.set(x as usize, a - b);
                    self.v.set(15, 1);
                } else {
                    self.v.set(x as usize, (a as u16 + 256 - b as u16) as u8);
                    self.v.set(15, 0);
                }
                Ok(())
            },
            Instr::ShiftRight(x, y) => {
                let b = self.v[y as usize];
                proof {
                    assert(b >> 1u8 == b / 2) by (bit_vector);
                    assert(b & 1u8 == b % 2) by (bit_vector);
                }
                self.v.set(x as usize, b >> 1u8);
                self.v.set(15, b & 1u8);
                Ok(())
            },
            Instr::SubRegsRev(x, y) => {
                let a = self.v[y as usize];
                let b = self.v[x as usize];
                if a >= b {
                    self.v.set(x as usize, a - b);
                    self.v.set(15, 1);
                } else {
                    self.v.set(x as usize, (a as u16 + 256 - b as u16) as u8);
                    self.v.set(15, 0);
                }
                Ok(())
            },
            Instr::ShiftLeft(x, y) => {
                let b = self.v[y as usize];
                proof {
                    assert(b << 1u8 == (2 * b) % 256) by (bit_vector);
                    assert(b >> 7u8 == b / 128) by (bit_vector);
                }
                self.v.set(x as usize, b << 1u8);
                self.v.set(15, b >> 7u8);
                Ok(())
            },
            Instr::SkipNeReg(x, y) => {
                if self.v[x as usize] != self.v[y as usize] {
                    self.pc = self.pc + 2;
                }
                Ok(())
            },
            Instr::SetIndex(nnn) => {
                self.i = nnn;
                Ok(())
            },
            Instr::JumpOffset(nnn) => {
                self.pc = nnn + self.v[0] as u16;
                Ok(())
            },
            Instr::RandomMasked(x, nn) => {
                self.v.set(x as usize, rnd & nn);
                Ok(())
            },
            Instr::Draw(x, y, n) => self.op_draw(x, y, n),
            Instr::SkipKeyDown(x) => {
                let k = self.v[x as usize];
                if k >= 16 {
                    return Err(EmuError::KeyIndexOutOfRange);
                }
                if self.keypress[k as usize] {
                    self.pc = self.pc + 2;
                }
                Ok(())
            },
            Instr::SkipKeyUp(x) => {
                let k = self.v[x as usize];
                if k >= 16 {
                    return Err(EmuError::KeyIndexOutOfRange);
                }
                if !self.keypress[k as usize] {
                    self.pc = self.pc + 2;
                }
                Ok(())
            },
            Instr::GetDelay(x) => {
                let d = self.delay_timer;
                self.v.set(x as usize, d);
                Ok(())
            },
            Instr::WaitKey(x) => {
                self.op_wait_key(x);
                Ok(())
            },
            Instr::SetDelay(x) => {
                self.delay_timer = self.v[x as usize];
                Ok(())
            },
            Instr::SetSound(x) => {
                self.sound_timer = self.v[x as usize];
                Ok(())
            },
            Instr::AddIndex(x) => {
                self.i = self.i.wrapping_add(self.v[x as usize] as u16);
                Ok(())
            },
            Instr::SpriteAddr(x) => {
                self.i = (self.v[x as usize] as u16) * 5;
                Ok(())
            },
            Instr::StoreBcd(x) => self.op_store_bcd(x),
            Instr::StoreRegs(x) => self.op_store_regs(x),
            Instr::LoadRegs(x) => self.op_load_regs(x),
        }
    }

    /// One fetch-decode-execute cycle, exactly as `spec_step` says for
    /// some byte of randomness: fetch the word at the program counter
    /// (failing if it lies outside memory), advance the program counter
    /// by 2, then run the decoded instruction. An unknown opcode is
    /// reported and skipped; an instruction that fails leaves the state
    /// as it was right after the fetch, so the driver can stop there.
    pub fn decode_next(&mut self) -> (r: Result<StepOutcome, EmuError>)
        requires
            old(self).wf(),
        ensures
            final(self).wf(),
            exists|rnd: u8| #[trigger] spec_step(old(self)@, rnd) == (final(self)@, r),
    {
        if self.pc as usize + 1 >= MEM_SIZE {
            proof {
                assert(spec_step(self@, 0) == (
                    self@,
                    Err::<StepOutcome, EmuError>(EmuError::FetchOutOfBounds),
                ));
            }
            return Err(EmuError::FetchOutOfBounds);
        }
        let pc0 = self.pc as usize;
        let hi = self.mem[pc0];
        let lo = self.mem[pc0 + 1];
        let w = ((hi as u16) << 8u16) | (lo as u16);
        self.pc = self.pc + 2;
        self.gfx_updated = false;
        proof {
            assert(w == fetched_word(old(self)@));
            assert(self@ =~= advanced(old(self)@));
        }
        match decode(w) {
            None => {
                proof {
                    assert(spec_step(old(self)@, 0) == (
                        self@,
                        Ok::<StepOutcome, EmuError>(StepOutcome::UnknownOpcode(w)),
                    ));
                }
                Ok(StepOutcome::UnknownOpcode(w))
            },
            Some(instr) => {
                let rnd = random_byte();
                match self.exec_instr(instr, rnd) {
                    Ok(()) => {
                        proof {
                            assert(spec_step(old(self)@, rnd) == (
                                self@,
                                Ok::<StepOutcome, EmuError>(StepOutcome::Executed),
                            ));
                        }
                        Ok(StepOutcome::Executed)
                    },
                    Err(e) => {
                        proof {
                            assert(spec_step(old(self)@, rnd) == (
                                self@,
                                Err::<StepOutcome, EmuError>(e),
                            ));
                        }
                        Err(e)
                    },
                }
            },
        }
    }
}

/// Relies on rand::random::<u8>: one byte from the thread-local
/// generator. No value is promised; callers state what holds of every
/// possible byte.
#[verifier::external_body]
fn random_byte() -> u8 {
    rand::random::<u8>()
}

} // verus!
