//! The mathematical model of the machine: the state as sequences and
//! scalars, and the meaning of every instruction as a function from
//! state to state. The executable engine in `emulator` is proved to
//! follow `spec_step` exactly.

use vstd::prelude::*;

use crate::decode::Instr;
use crate::decode::spec_decode;

verus! {

/// Size of the addressable memory in bytes.
pub const MEM_SIZE: usize = 4096;

/// Address at which a loaded program image begins.
pub const PROGRAM_START: usize = 0x200;

/// Number of general-purpose registers.
pub const NUM_REGS: usize = 16;

/// Capacity of the call stack.
pub const STACK_CAP: usize = 16;

/// Framebuffer width in pixels.
pub const SCREEN_W: usize = 64;

/// Framebuffer height in pixels.
pub const SCREEN_H: usize = 32;

/// Number of pixels in the framebuffer.
pub const SCREEN_PIXELS: usize = 2048;

/// Number of keys on the keypad.
pub const NUM_KEYS: usize = 16;

/// Number of bytes in the built-in character-sprite table.
pub const FONT_BYTES: usize = 80;

/// The conditions under which the machine refuses to proceed.
#[derive(Clone, Copy, Debug, PartialEq, Eq, Structural)]
pub enum EmuError {
    /// The program counter (or its successor) points outside memory.
    FetchOutOfBounds,
    /// A call was made with the call stack already at capacity.
    StackOverflow,
    /// A return was executed with an empty call stack.
    StackUnderflow,
    /// A key-state update named a key outside the keypad.
    InvalidKeyIndex,
    /// A register-derived key index was outside the keypad.
    KeyIndexOutOfRange,
    /// A program image does not fit in memory.
    OutOfMemory,
    /// An instruction would read or write memory past its end.
    MemoryOutOfBounds,
}

/// What one step did, when it did not fail.
#[derive(Clone, Copy, Debug, PartialEq, Eq, Structural)]
pub enum StepOutcome {
    /// A defined instruction was executed.
    Executed,
    /// The fetched word matches no defined opcode. The program counter
    /// has advanced past it and nothing else changed; the word is
    /// reported for diagnostics.
    UnknownOpcode(u16),
}

/// The mathematical model of the machine state.
#[verifier::ext_equal]
pub ghost struct EmuView {
    pub mem: Seq<u8>,
    pub regs: Seq<u8>,
    pub stack: Seq<u16>,
    pub gfx: Seq<bool>,
    pub keys: Seq<bool>,
    pub pc: u16,
    pub index: u16,
    pub delay: u8,
    pub sound: u8,
    pub gfx_updated: bool,
}

impl EmuView {
    /// The shapes every reachable machine state has.
    pub open spec fn wf(self) -> bool {
        &&& self.mem.len() == MEM_SIZE
        &&& self.regs.len() == NUM_REGS
        &&& self.stack.len() <= STACK_CAP
        &&& self.gfx.len() == SCREEN_PIXELS
        &&& self.keys.len() == NUM_KEYS
    }

    /// The state `Emulator::new` constructs: everything zero, everything off.
    pub open spec fn initial() -> EmuView {
        EmuView {
            mem: Seq::new(MEM_SIZE as nat, |k: int| 0u8),
            regs: Seq::new(NUM_REGS as nat, |k: int| 0u8),
            stack: Seq::empty(),
            gfx: Seq::new(SCREEN_PIXELS as nat, |k: int| false),
            keys: Seq::new(NUM_KEYS as nat, |k: int| false),
            pc: 0,
            index: 0,
            delay: 0,
            sound: 0,
            gfx_updated: false,
        }
    }
}

/// The built-in character-sprite table: 16 glyphs of 5 bytes each,
/// the 8x5 bitmaps of the hexadecimal digits 0 through F.
pub open spec fn font_seq() -> Seq<u8> {
    seq![
        0xf0u8, 0x90, 0x90, 0x90, 0xf0,
        0x20, 0x60, 0x20, 0x20, 0x70,
        0xf0, 0x10, 0xf0, 0x80, 0xf0,
        0xf0, 0x10, 0xf0, 0x10, 0xf0,
        0x90, 0x90, 0xf0, 0x10, 0x10,
        0xf0, 0x80, 0xf0, 0x10, 0xf0,
        0xf0, 0x80, 0xf0, 0x90, 0xf0,
        0xf0, 0x10, 0x20, 0x40, 0x40,
        0xf0, 0x90, 0xf0, 0x90, 0xf0,
        0xf0, 0x90, 0xf0, 0x10, 0xf0,
        0xf0, 0x90, 0xf0, 0x90, 0x90,
        0xe0, 0x90, 0xe0, 0x90, 0xe0,
        0xf0, 0x80, 0x80, 0x80, 0xf0,
        0xe0, 0x90, 0x90, 0x90, 0xe0,
        0xf0, 0x80, 0xf0, 0x80, 0xf0,
        0xf0, 0x80, 0xf0, 0x80, 0x80,
    ]
}

/// Memory after a program image is installed: the sprite table in the
/// first 80 bytes, the image from `PROGRAM_START` on, the rest as before.
pub open spec fn loaded_mem(mem: Seq<u8>, prog: Seq<u8>) -> Seq<u8> {
    Seq::new(
        MEM_SIZE as nat,
        |k: int|
            if k < FONT_BYTES {
                font_seq()[k]
            } else if PROGRAM_START <= k < PROGRAM_START + prog.len() {
                prog[k - PROGRAM_START]
            } else {
                mem[k]
            },
    )
}

/// Whether the sprite row byte has the bit for column offset `dc` set
/// (bit 7 is the leftmost pixel).
pub open spec fn sprite_bit(byte: u8, dc: int) -> bool {
    byte & (1u8 << ((7 - dc) as u8)) != 0
}

/// Whether the draw of an `n`-row sprite at (`cx`, `cy`) puts a set
/// sprite bit on the framebuffer cell (`r`, `c`). Pixels past the right
/// or bottom edge are clipped, not wrapped.
pub open spec fn draw_hits(mem: Seq<u8>, i: int, cx: int, cy: int, n: int, r: int, c: int) -> bool {
    &&& cy <= r < cy + n
    &&& r < SCREEN_H
    &&& cx <= c < cx + 8
    &&& c < SCREEN_W
    &&& sprite_bit(mem[i + (r - cy)], c - cx)
}

/// The framebuffer after a draw: every cell a set sprite bit lands on
/// is toggled, every other cell keeps its value.
pub open spec fn draw_gfx(gfx: Seq<bool>, mem: Seq<u8>, i: int, cx: int, cy: int, n: int) -> Seq<bool> {
    Seq::new(
        SCREEN_PIXELS as nat,
        |k: int|
            if draw_hits(mem, i, cx, cy, n, k / 64, k % 64) {
                !gfx[k]
            } else {
                gfx[k]
            },
    )
}

/// Whether a draw flips at least one pixel from on to off, which is
/// what register 0xF reports.
pub open spec fn draw_collision(gfx: Seq<bool>, mem: Seq<u8>, i: int, cx: int, cy: int, n: int) -> bool {
    exists|r: int, c: int| draw_hits(mem, i, cx, cy, n, r, c) && gfx[r * 64 + c]
}

/// How many sprite rows a draw actually touches: the sprite height,
/// clipped at the bottom edge of the screen.
pub open spec fn draw_rows(cy: int, n: int) -> int {
    if n < SCREEN_H - cy {
        n
    } else {
        SCREEN_H - cy
    }
}

/// A flat framebuffer index built from a row and a column is taken
/// apart again by division and remainder.
pub proof fn lemma_cell_index(r: int, c: int)
    requires
        0 <= r,
        0 <= c < 64,
    ensures
        (r * 64 + c) / 64 == r,
        (r * 64 + c) % 64 == c,
{
    vstd::arithmetic::div_mod::lemma_fundamental_div_mod_converse_div(r * 64 + c, 64, r, c);
    vstd::arithmetic::div_mod::lemma_fundamental_div_mod_converse_mod(r * 64 + c, 64, r, c);
}

/// Whether any key flag is set.
pub open spec fn any_key_down(keys: Seq<bool>) -> bool {
    exists|k: int| 0 <= k < keys.len() && keys[k]
}

/// Whether `k` is the lowest-indexed pressed key.
pub open spec fn is_lowest_pressed(keys: Seq<bool>, k: int) -> bool {
    &&& 0 <= k < keys.len()
    &&& keys[k]
    &&& forall|m: int| 0 <= m < k ==> !keys[m]
}

/// The lowest-indexed pressed key (meaningful only when a key is down).
pub open spec fn lowest_pressed(keys: Seq<bool>) -> int {
    choose|k: int| is_lowest_pressed(keys, k)
}

/// `lowest_pressed` is pinned down by any witness: there is at most one
/// lowest pressed key.
pub proof fn lemma_lowest_pressed(keys: Seq<bool>, k: int)
    requires
        is_lowest_pressed(keys, k),
    ensures
        lowest_pressed(keys) == k,
{
    let j = lowest_pressed(keys);
    assert(is_lowest_pressed(keys, j));
    if j < k {
        assert(!keys[j]);
    } else if k < j {
        assert(!keys[k]);
    }
}

/// Below any pressed key there is a lowest pressed key.
proof fn lemma_lowest_below(keys: Seq<bool>, k: int)
    requires
        0 <= k < keys.len(),
        keys[k],
    ensures
        exists|j: int| is_lowest_pressed(keys, j),
    decreases k,
{
    if forall|m: int| 0 <= m < k ==> !keys[m] {
        assert(is_lowest_pressed(keys, k));
    } else {
        let m = choose|m: int| 0 <= m < k && keys[m];
        lemma_lowest_below(keys, m);
    }
}

/// When some key is down, `lowest_pressed` really is the lowest
/// pressed key.
pub proof fn lemma_lowest_exists(keys: Seq<bool>)
    requires
        any_key_down(keys),
    ensures
        is_lowest_pressed(keys, lowest_pressed(keys)),
{
    let k = choose|k: int| 0 <= k < keys.len() && keys[k];
    lemma_lowest_below(keys, k);
}

/// A pressed key is a witness that some key is down.
pub proof fn lemma_any_key_down(keys: Seq<bool>, k: int)
    requires
        0 <= k < keys.len(),
        keys[k],
    ensures
        any_key_down(keys),
{
}

/// The meaning of one decoded instruction, applied to the state whose
/// program counter has already advanced past it. `rnd` is the byte an
/// external randomness source produced; only `RandomMasked` reads it.
/// An `Err` means the machine must halt: the state is left as it was.
pub open spec fn spec_exec_instr(s: EmuView, instr: Instr, rnd: u8) -> Result<EmuView, EmuError> {
    match instr {
        Instr::ClearScreen => Ok(
            EmuView {
                gfx: Seq::new(SCREEN_PIXELS as nat, |k: int| false),
                gfx_updated: true,
                ..s
            },
        ),
        Instr::Return => if s.stack.len() == 0 {
            Err(EmuError::StackUnderflow)
        } else {
            Ok(EmuView { pc: s.stack.last(), stack: s.stack.drop_last(), ..s })
        },
        Instr::Jump(nnn) => Ok(EmuView { pc: nnn, ..s }),
        Instr::Call(nnn) => if s.stack.len() >= STACK_CAP {
            Err(EmuError::StackOverflow)
        } else {
            Ok(EmuView { stack: s.stack.push(s.pc), pc: nnn, ..s })
        },
        Instr::SkipEqImm(x, nn) => Ok(
            EmuView {
                pc: if s.regs[x as int] == nn {
                    (s.pc + 2) as u16
                } else {
                    s.pc
                },
                ..s
            },
        ),
        Instr::SkipNeImm(x, nn) => Ok(
            EmuView {
                pc: if s.regs[x as int] != nn {
                    (s.pc + 2) as u16
                } else {
                    s.pc
                },
                ..s
            },
        ),
        Instr::SkipEqReg(x, y) => Ok(
            EmuView {
                pc: if s.regs[x as int] == s.regs[y as int] {
                    (s.pc + 2) as u16
                } else {
                    s.pc
                },
                ..s
            },
        ),
        Instr::SetImm(x, nn) => Ok(EmuView { regs: s.regs.update(x as int, nn), ..s }),
        Instr::AddImm(x, nn) => Ok(
            EmuView {
                regs: s.regs.update(x as int, ((s.regs[x as int] + nn) % 256) as u8),
                ..s
            },
        ),
        Instr::Move(x, y) => Ok(EmuView { regs: s.regs.update(x as int, s.regs[y as int]), ..s }),
        Instr::Or(x, y) => Ok(
            EmuView { regs: s.regs.update(x as int, s.regs[x as int] | s.regs[y as int]), ..s },
        ),
        Instr::And(x, y) => Ok(
            EmuView { regs: s.regs.update(x as int, s.regs[x as int] & s.regs[y as int]), ..s },
        ),
        Instr::Xor(x, y) => Ok(
            EmuView { regs: s.regs.update(x as int, s.regs[x as int] ^ s.regs[y as int]), ..s },
        ),
        Instr::AddRegs(x, y) => {
            let a = s.regs[x as int];
            let b = s.regs[y as int];
            Ok(
                EmuView {
                    regs: s.regs.update(x as int, ((a + b) % 256) as u8).update(
                        15,
                        if a + b >= 256 {
                            1u8
                        } else {
                            0u8
                        },
                    ),
                    ..s
                },
            )
        },
        Instr::SubRegs(x, y) => {
            let a = s.regs[x as int];
            let b = s.regs[y as int];
            Ok(
                EmuView {
                    regs: s.regs.update(
                        x as int,
                        if a >= b {
                            (a - b) as u8
                        } else {
                            (a - b + 256) as u8
                        },
                    ).update(
                        15,
                        if a >= b {
                            1u8
                        } else {
                            0u8
                        },
                    ),
                    ..s
                },
            )
        },
        Instr::ShiftRight(x, y) => {
            let b = s.regs[y as int];
            Ok(
                EmuView {
                    regs: s.regs.update(x as int, (b / 2) as u8).update(15, (b % 2) as u8),
                    ..s
                },
            )
        },
        Instr::SubRegsRev(x, y) => {
            let a = s.regs[y as int];
            let b = s.regs[x as int];
            Ok(
                EmuView {
                    regs: s.regs.update(
                        x as int,
                        if a >= b {
                            (a - b) as u8
                        } else {
                            (a - b + 256) as u8
                        },
                    ).update(
                        15,
                        if a >= b {
                            1u8
                        } else {
                            0u8
                        },
                    ),
                    ..s
                },
            )
        },
        Instr::ShiftLeft(x, y) => {
            let b = s.regs[y as int];
            Ok(
                EmuView {
                    regs: s.regs.update(x as int, ((2 * b) % 256) as u8).update(
                        15,
                        (b / 128) as u8,
                    ),
                    ..s
                },
            )
        },
        Instr::SkipNeReg(x, y) => Ok(
            EmuView {
                pc: if s.regs[x as int] != s.regs[y as int] {
                    (s.pc + 2) as u16
                } else {
                    s.pc
                },
                ..s
            },
        ),
        Instr::SetIndex(nnn) => Ok(EmuView { index: nnn, ..s }),
        Instr::JumpOffset(nnn) => Ok(EmuView { pc: (nnn + s.regs[0]) as u16, ..s }),
        Instr::RandomMasked(x, nn) => Ok(EmuView { regs: s.regs.update(x as int, rnd & nn), ..s }),
        Instr::Draw(x, y, n) => {
            let cx = s.regs[x as int] % 64;
            let cy = s.regs[y as int] % 32;
            let rows = draw_rows(cy as int, n as int);
            if rows > 0 && s.index + rows > MEM_SIZE {
                Err(EmuError::MemoryOutOfBounds)
            } else {
                Ok(
                    EmuView {
                        gfx: draw_gfx(s.gfx, s.mem, s.index as int, cx as int, cy as int, n as int),
                        regs: s.regs.update(
                            15,
                            if draw_collision(
                                s.gfx,
                                s.mem,
                                s.index as int,
                                cx as int,
                                cy as int,
                                n as int,
                            ) {
                                1u8
                            } else {
                                0u8
                            },
                        ),
                        gfx_updated: true,
                        ..s
                    },
                )
            }
        },
        Instr::SkipKeyDown(x) => {
            let k = s.regs[x as int];
            if k >= NUM_KEYS {
                Err(EmuError::KeyIndexOutOfRange)
            } else {
                Ok(
                    EmuView {
                        pc: if s.keys[k as int] {
                            (s.pc + 2) as u16
                        } else {
                            s.pc
                        },
                        ..s
                    },
                )
            }
        },
        Instr::SkipKeyUp(x) => {
            let k = s.regs[x as int];
            if k >= NUM_KEYS {
                Err(EmuError::KeyIndexOutOfRange)
            } else {
                Ok(
                    EmuView {
                        pc: if !s.keys[k as int] {
                            (s.pc + 2) as u16
                        } else {
                            s.pc
                        },
                        ..s
                    },
                )
            }
        },
        Instr::GetDelay(x) => Ok(EmuView { regs: s.regs.update(x as int, s.delay), ..s }),
        Instr::WaitKey(x) => if any_key_down(s.keys) {
            Ok(EmuView { regs: s.regs.update(x as int, lowest_pressed(s.keys) as u8), ..s })
        } else {
            Ok(EmuView { pc: (s.pc - 2) as u16, ..s })
        },
        Instr::SetDelay(x) => Ok(EmuView { delay: s.regs[x as int], ..s }),
        Instr::SetSound(x) => Ok(EmuView { sound: s.regs[x as int], ..s }),
        Instr::AddIndex(x) => Ok(
            EmuView {
                index: if s.index + s.regs[x as int] > 0xffff {
                    (s.index + s.regs[x as int] - 0x10000) as u16
                } else {
                    (s.index + s.regs[x as int]) as u16
                },
                ..s
            },
        ),
        Instr::SpriteAddr(x) => Ok(EmuView { index: (s.regs[x as int] * 5) as u16, ..s }),
        Instr::StoreBcd(x) => {
            let v = s.regs[x as int];
            if s.index + 2 >= MEM_SIZE {
                Err(EmuError::MemoryOutOfBounds)
            } else {
                Ok(
                    EmuView {
                        mem: s.mem.update(s.index as int, (v / 100 % 10) as u8).update(
                            s.index as int + 1,
                            (v / 10 % 10) as u8,
                        ).update(s.index as int + 2, (v % 10) as u8),
                        ..s
                    },
                )
            }
        },
        Instr::StoreRegs(x) => if s.index + x + 1 > MEM_SIZE {
            Err(EmuError::MemoryOutOfBounds)
        } else {
            Ok(
                EmuView {
                    mem: Seq::new(
                        MEM_SIZE as nat,
                        |k: int|
                            if s.index <= k <= s.index + x {
                                s.regs[k - s.index]
                            } else {
                                s.mem[k]
                            },
                    ),
                    index: (s.index + x + 1) as u16,
                    ..s
                },
            )
        },
        Instr::LoadRegs(x) => if s.index + x + 1 > MEM_SIZE {
            Err(EmuError::MemoryOutOfBounds)
        } else {
            Ok(
                EmuView {
                    regs: Seq::new(
                        NUM_REGS as nat,
                        |j: int|
                            if j <= x {
                                s.mem[s.index + j]
                            } else {
                                s.regs[j]
                            },
                    ),
                    index: (s.index + x + 1) as u16,
                    ..s
                },
            )
        },
    }
}

/// The 16-bit word at the program counter, high byte first.
pub open spec fn fetched_word(s: EmuView) -> u16 {
    ((s.mem[s.pc as int] as u16) << 8u16) | (s.mem[s.pc as int + 1] as u16)
}

/// The state right after a successful fetch: the program counter has
/// advanced by 2 and the framebuffer is not yet marked changed.
pub open spec fn advanced(s: EmuView) -> EmuView {
    EmuView { pc: (s.pc + 2) as u16, gfx_updated: false, ..s }
}

/// One full fetch-decode-execute cycle on the model: the state after
/// the step and what the step reported. A fetch outside memory fails
/// and changes nothing; an unknown opcode advances the program counter
/// and changes nothing else; an instruction that fails leaves the state
/// as it was right after the fetch.
pub open spec fn spec_step(s: EmuView, rnd: u8) -> (EmuView, Result<StepOutcome, EmuError>) {
    if s.pc + 1 >= MEM_SIZE {
        (s, Err(EmuError::FetchOutOfBounds))
    } else {
        let w = fetched_word(s);
        let s1 = advanced(s);
        match spec_decode(w) {
            None => (s1, Ok(StepOutcome::UnknownOpcode(w))),
            Some(instr) => match spec_exec_instr(s1, instr, rnd) {
                Ok(s2) => (s2, Ok(StepOutcome::Executed)),
                Err(e) => (s1, Err(e)),
            },
        }
    }
}

} // verus!
