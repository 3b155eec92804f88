//! Laws the instruction semantics obey, each proved once and for all
//! inputs from the model in `semantics`.

use vstd::prelude::*;

use crate::decode::Instr;
use crate::semantics::EmuError;
use crate::semantics::EmuView;
use crate::semantics::MEM_SIZE;
use crate::semantics::SCREEN_PIXELS;
use crate::semantics::STACK_CAP;
use crate::semantics::StepOutcome;
use crate::semantics::any_key_down;
use crate::semantics::draw_hits;
use crate::semantics::is_lowest_pressed;
use crate::semantics::lemma_cell_index;
use crate::semantics::lemma_lowest_exists;
use crate::semantics::spec_exec_instr;
use crate::semantics::spec_step;

verus! {

/// Adding two registers leaves their sum modulo 256 in the destination,
/// and the flag register reports exactly whether the 8-bit sum
/// overflowed. The destination must not be the flag register itself,
/// which the flag write overwrites.
pub proof fn lemma_add_regs(s: EmuView, x: u8, y: u8, rnd: u8)
    requires
        s.wf(),
        x < 16,
        y < 16,
        x != 15,
    ensures
        spec_exec_instr(s, Instr::AddRegs(x, y), rnd) is Ok,
        ({
            let a = s.regs[x as int];
            let b = s.regs[y as int];
            let sv = spec_exec_instr(s, Instr::AddRegs(x, y), rnd).unwrap();
            &&& sv.regs[x as int] == (a + b) % 256
            &&& sv.regs[15] == (if a + b >= 256 {
                1u8
            } else {
                0u8
            })
        }),
{
}

/// Subtracting register y from register x leaves their difference
/// modulo 256 in the destination, and the flag register is 1 exactly
/// when no borrow occurred (x was at least y). The destination must not
/// be the flag register itself, which the flag write overwrites.
pub proof fn lemma_sub_regs(s: EmuView, x: u8, y: u8, rnd: u8)
    requires
        s.wf(),
        x < 16,
        y < 16,
        x != 15,
    ensures
        spec_exec_instr(s, Instr::SubRegs(x, y), rnd) is Ok,
        ({
            let a = s.regs[x as int];
            let b = s.regs[y as int];
            let sv = spec_exec_instr(s, Instr::SubRegs(x, y), rnd).unwrap();
            &&& sv.regs[x as int] == (a - b) % 256
            &&& sv.regs[15] == (if a >= b {
                1u8
            } else {
                0u8
            })
        }),
{
    let a = s.regs[x as int];
    let b = s.regs[y as int];
    if a >= b {
        assert((a - b) % 256 == a - b);
    } else {
        assert((a - b) % 256 == a - b + 256) by {
            vstd::arithmetic::div_mod::lemma_fundamental_div_mod_converse_mod(
                a - b,
                256,
                -1,
                a - b + 256,
            );
        }
    }
}

/// After clear-screen, any read of the framebuffer yields an off pixel.
pub proof fn lemma_clear_screen(s: EmuView, rnd: u8, k: int)
    requires
        s.wf(),
        0 <= k < SCREEN_PIXELS,
    ensures
        spec_exec_instr(s, Instr::ClearScreen, rnd) is Ok,
        !spec_exec_instr(s, Instr::ClearScreen, rnd).unwrap().gfx[k],
{
}

/// Drawing the identical sprite at the identical location twice in
/// succession restores the whole framebuffer exactly, and the second
/// draw reports a collision precisely when some visible sprite bit
/// landed on a pixel that was off before the first draw (the first
/// draw turned exactly those pixels on, and the second turns them
/// off again). The coordinate registers must not be the flag register,
/// which the first draw overwrites.
pub proof fn lemma_draw_twice(s: EmuView, x: u8, y: u8, n: u8, rnd: u8)
    requires
        s.wf(),
        x < 16,
        y < 16,
        n < 16,
        x != 15,
        y != 15,
        spec_exec_instr(s, Instr::Draw(x, y, n), rnd) is Ok,
    ensures
        spec_exec_instr(
            spec_exec_instr(s, Instr::Draw(x, y, n), rnd).unwrap(),
            Instr::Draw(x, y, n),
            rnd,
        ) is Ok,
        ({
            let s1 = spec_exec_instr(s, Instr::Draw(x, y, n), rnd).unwrap();
            let s2 = spec_exec_instr(s1, Instr::Draw(x, y, n), rnd).unwrap();
            let cx = s.regs[x as int] % 64;
            let cy = s.regs[y as int] % 32;
            &&& s2.gfx =~= s.gfx
            &&& (s2.regs[15] == 1 <==> exists|r: int, c: int|
                draw_hits(s.mem, s.index as int, cx as int, cy as int, n as int, r, c)
                    && !s.gfx[r * 64 + c])
        }),
{
    let s1 = spec_exec_instr(s, Instr::Draw(x, y, n), rnd).unwrap();
    let cx = s.regs[x as int] % 64;
    let cy = s.regs[y as int] % 32;
    let gi = s.index as int;
    assert(s1.regs[x as int] == s.regs[x as int]);
    assert(s1.regs[y as int] == s.regs[y as int]);
    assert forall|r: int, c: int|
        draw_hits(s.mem, gi, cx as int, cy as int, n as int, r, c) implies s1.gfx[r * 64 + c]
        == !s.gfx[r * 64 + c] by {
        lemma_cell_index(r, c);
    }
    let s2 = spec_exec_instr(s1, Instr::Draw(x, y, n), rnd).unwrap();
    assert forall|k: int| 0 <= k < SCREEN_PIXELS implies s2.gfx[k] == s.gfx[k] by {
        assert(s1.gfx[k] == (if draw_hits(s.mem, gi, cx as int, cy as int, n as int, k / 64, k
            % 64) {
            !s.gfx[k]
        } else {
            s.gfx[k]
        }));
    }
    assert(s2.gfx =~= s.gfx);
}

/// A step that fetches wait-for-key with no key pressed leaves the
/// program counter (and the registers) unchanged, so the same
/// instruction repeats; once a key is pressed, the step advances the
/// program counter normally and register x receives the lowest-indexed
/// pressed key.
pub proof fn lemma_wait_key_step(s: EmuView, x: u8, rnd: u8)
    requires
        s.wf(),
        x < 16,
        s.pc + 1 < MEM_SIZE,
        s.mem[s.pc as int] == 0xf0 + x,
        s.mem[s.pc as int + 1] == 0x0a,
    ensures
        spec_step(s, rnd).1 == Ok::<StepOutcome, EmuError>(StepOutcome::Executed),
        !any_key_down(s.keys) ==> spec_step(s, rnd).0 =~= (EmuView { gfx_updated: false, ..s }),
        any_key_down(s.keys) ==> spec_step(s, rnd).0.pc == s.pc + 2 && is_lowest_pressed(
            s.keys,
            spec_step(s, rnd).0.regs[x as int] as int,
        ),
{
    let hi = s.mem[s.pc as int];
    let lo = s.mem[s.pc as int + 1];
    let w = ((hi as u16) << 8u16) | (lo as u16);
    assert((w & 0xf000) == 0xf000 && ((w & 0xff) as u8) == 0x0a && (((w >> 8) & 0xf) as u8) == x
        && w != 0x00e0 && w != 0x00ee) by (bit_vector)
        requires
            w == ((hi as u16) << 8u16) | (lo as u16),
            hi == 0xf0 + x,
            lo == 0x0a,
            x < 16,
    ;
    if any_key_down(s.keys) {
        lemma_lowest_exists(s.keys);
    }
}

/// A call followed immediately by a return leaves the machine exactly
/// where it was: the program counter points at the instruction after
/// the call and the stack is as before.
pub proof fn lemma_call_return(s: EmuView, addr: u16, rnd: u8)
    requires
        s.wf(),
        s.stack.len() < STACK_CAP,
    ensures
        spec_exec_instr(s, Instr::Call(addr), rnd) is Ok,
        spec_exec_instr(s, Instr::Call(addr), rnd).unwrap().pc == addr,
        spec_exec_instr(
            spec_exec_instr(s, Instr::Call(addr), rnd).unwrap(),
            Instr::Return,
            rnd,
        ) is Ok,
        spec_exec_instr(
            spec_exec_instr(s, Instr::Call(addr), rnd).unwrap(),
            Instr::Return,
            rnd,
        ).unwrap() =~= s,
{
    let s1 = spec_exec_instr(s, Instr::Call(addr), rnd).unwrap();
    assert(s1.stack.last() == s.pc);
    assert(s1.stack.drop_last() =~= s.stack);
}

} // verus!
