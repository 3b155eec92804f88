//! Instruction decoding: from a 16-bit instruction word to a structured
//! instruction value. Every instruction carries its fields already
//! extracted; a word that matches no defined opcode decodes to `None`.

use vstd::prelude::*;

verus! {

/// A decoded instruction. Register-index fields (`x`, `y`) are the two
/// 4-bit nibbles of the word, an address field is 12 bits, an immediate
/// is 8 bits, and a sprite height is 4 bits.
#[derive(Clone, Copy, Debug, PartialEq, Eq, Structural)]
pub enum Instr {
    /// 00E0: set every framebuffer pixel to off.
    ClearScreen,
    /// 00EE: pop the call stack into the program counter.
    Return,
    /// 1nnn: set the program counter to the address.
    Jump(u16),
    /// 2nnn: push the program counter, then jump to the address.
    Call(u16),
    /// 3xnn: skip the next instruction if register x equals the immediate.
    SkipEqImm(u8, u8),
    /// 4xnn: skip the next instruction if register x differs from the immediate.
    SkipNeImm(u8, u8),
    /// 5xy0: skip the next instruction if registers x and y are equal.
    SkipEqReg(u8, u8),
    /// 6xnn: store the immediate in register x.
    SetImm(u8, u8),
    /// 7xnn: add the immediate to register x modulo 256; no flag is touched.
    AddImm(u8, u8),
    /// 8xy0: copy register y into register x.
    Move(u8, u8),
    /// 8xy1: bitwise OR of registers x and y into register x.
    Or(u8, u8),
    /// 8xy2: bitwise AND of registers x and y into register x.
    And(u8, u8),
    /// 8xy3: bitwise XOR of registers x and y into register x.
    Xor(u8, u8),
    /// 8xy4: add register y to register x modulo 256; register 0xF gets
    /// 1 exactly when the sum overflowed 8 bits, else 0.
    AddRegs(u8, u8),
    /// 8xy5: register x minus register y modulo 256; register 0xF gets
    /// 1 exactly when no borrow occurred (x was at least y), else 0.
    SubRegs(u8, u8),
    /// 8xy6: register x becomes register y shifted right by one;
    /// register 0xF gets the bit shifted out (y's low bit).
    ShiftRight(u8, u8),
    /// 8xy7: register y minus register x modulo 256; flag as in SubRegs.
    SubRegsRev(u8, u8),
    /// 8xyE: register x becomes register y shifted left by one modulo 256;
    /// register 0xF gets the bit shifted out (y's high bit).
    ShiftLeft(u8, u8),
    /// 9xy0: skip the next instruction if registers x and y differ.
    SkipNeReg(u8, u8),
    /// Annn: store the address in the index register.
    SetIndex(u16),
    /// Bnnn: jump to the address plus register 0.
    JumpOffset(u16),
    /// Cxnn: register x becomes a random byte ANDed with the immediate.
    RandomMasked(u8, u8),
    /// Dxyn: XOR-composite an 8-wide, n-tall sprite read from memory at
    /// the index register onto the framebuffer at (register x mod 64,
    /// register y mod 32); register 0xF reports whether a pixel flipped
    /// from on to off.
    Draw(u8, u8, u8),
    /// Ex9E: skip the next instruction if the key named by register x is down.
    SkipKeyDown(u8),
    /// ExA1: skip the next instruction if the key named by register x is up.
    SkipKeyUp(u8),
    /// Fx07: copy the delay timer into register x.
    GetDelay(u8),
    /// Fx0A: if no key is down, rewind the program counter so the same
    /// instruction repeats; otherwise store the lowest pressed key in
    /// register x.
    WaitKey(u8),
    /// Fx15: set the delay timer from register x.
    SetDelay(u8),
    /// Fx18: set the sound timer from register x.
    SetSound(u8),
    /// Fx1E: add register x to the index register modulo 65536.
    AddIndex(u8),
    /// Fx29: point the index register at the built-in glyph for the
    /// digit in register x (five bytes per glyph).
    SpriteAddr(u8),
    /// Fx33: write the decimal digits of register x to memory at the
    /// index register: hundreds, tens, units.
    StoreBcd(u8),
    /// Fx55: write registers 0 through x to memory at the index register,
    /// then advance the index register by x + 1.
    StoreRegs(u8),
    /// Fx65: fill registers 0 through x from memory at the index register,
    /// then advance the index register by x + 1.
    LoadRegs(u8),
}

impl Instr {
    /// Every field a decoder can produce is in range: register indices
    /// below 16, addresses below 4096, sprite heights below 16.
    pub open spec fn wf(self) -> bool {
        match self {
            Instr::ClearScreen => true,
            Instr::Return => true,
            Instr::Jump(nnn) => nnn < 4096,
            Instr::Call(nnn) => nnn < 4096,
            Instr::SkipEqImm(x, _nn) => x < 16,
            Instr::SkipNeImm(x, _nn) => x < 16,
            Instr::SkipEqReg(x, y) => x < 16 && y < 16,
            Instr::SetImm(x, _nn) => x < 16,
            Instr::AddImm(x, _nn) => x < 16,
            Instr::Move(x, y) => x < 16 && y < 16,
            Instr::Or(x, y) => x < 16 && y < 16,
            Instr::And(x, y) => x < 16 && y < 16,
            Instr::Xor(x, y) => x < 16 && y < 16,
            Instr::AddRegs(x, y) => x < 16 && y < 16,
            Instr::SubRegs(x, y) => x < 16 && y < 16,
            Instr::ShiftRight(x, y) => x < 16 && y < 16,
            Instr::SubRegsRev(x, y) => x < 16 && y < 16,
            Instr::ShiftLeft(x, y) => x < 16 && y < 16,
            Instr::SkipNeReg(x, y) => x < 16 && y < 16,
            Instr::SetIndex(nnn) => nnn < 4096,
            Instr::JumpOffset(nnn) => nnn < 4096,
            Instr::RandomMasked(x, _nn) => x < 16,
            Instr::Draw(x, y, n) => x < 16 && y < 16 && n < 16,
            Instr::SkipKeyDown(x) => x < 16,
            Instr::SkipKeyUp(x) => x < 16,
            Instr::GetDelay(x) => x < 16,
            Instr::WaitKey(x) => x < 16,
            Instr::SetDelay(x) => x < 16,
            Instr::SetSound(x) => x < 16,
            Instr::AddIndex(x) => x < 16,
            Instr::SpriteAddr(x) => x < 16,
            Instr::StoreBcd(x) => x < 16,
            Instr::StoreRegs(x) => x < 16,
            Instr::LoadRegs(x) => x < 16,
        }
    }
}

/// What `decode` returns for every instruction word.
pub open spec fn spec_decode(w: u16) -> Option<Instr> {
    let x = ((w >> 8) & 0xf) as u8;
    let y = ((w >> 4) & 0xf) as u8;
    let nnn = w & 0xfff;
    let nn = (w & 0xff) as u8;
    let n = (w & 0xf) as u8;
    match w & 0xf000 {
        0x0000 => if w == 0x00e0 {
            Some(Instr::ClearScreen)
        } else if w == 0x00ee {
            Some(Instr::Return)
        } else {
            None
        },
        0x1000 => Some(Instr::Jump(nnn)),
        0x2000 => Some(Instr::Call(nnn)),
        0x3000 => Some(Instr::SkipEqImm(x, nn)),
        0x4000 => Some(Instr::SkipNeImm(x, nn)),
        0x5000 => if n == 0 {
            Some(Instr::SkipEqReg(x, y))
        } else {
            None
        },
        0x6000 => Some(Instr::SetImm(x, nn)),
        0x7000 => Some(Instr::AddImm(x, nn)),
        0x8000 => match n {
            0x0 => Some(Instr::Move(x, y)),
            0x1 => Some(Instr::Or(x, y)),
            0x2 => Some(Instr::And(x, y)),
            0x3 => Some(Instr::Xor(x, y)),
            0x4 => Some(Instr::AddRegs(x, y)),
            0x5 => Some(Instr::SubRegs(x, y)),
            0x6 => Some(Instr::ShiftRight(x, y)),
            0x7 => Some(Instr::SubRegsRev(x, y)),
            0xe => Some(Instr::ShiftLeft(x, y)),
            _ => None,
        },
        0x9000 => Some(Instr::SkipNeReg(x, y)),
        0xa000 => Some(Instr::SetIndex(nnn)),
        0xb000 => Some(Instr::JumpOffset(nnn)),
        0xc000 => Some(Instr::RandomMasked(x, nn)),
        0xd000 => Some(Instr::Draw(x, y, n)),
        0xe000 => match nn {
            0x9e => Some(Instr::SkipKeyDown(x)),
            0xa1 => Some(Instr::SkipKeyUp(x)),
            _ => None,
        },
        0xf000 => match nn {
            0x07 => Some(Instr::GetDelay(x)),
            0x0a => Some(Instr::WaitKey(x)),
            0x15 => Some(Instr::SetDelay(x)),
            0x18 => Some(Instr::SetSound(x)),
            0x1e => Some(Instr::AddIndex(x)),
            0x29 => Some(Instr::SpriteAddr(x)),
            0x33 => Some(Instr::StoreBcd(x)),
            0x55 => Some(Instr::StoreRegs(x)),
            0x65 => Some(Instr::LoadRegs(x)),
            _ => None,
        },
        _ => None,
    }
}

/// The nibble and mask arithmetic behind `spec_decode` keeps every
/// field in range.
pub proof fn lemma_decode_fields(w: u16)
    by (bit_vector)
    ensures
        ((w >> 8) & 0xf) < 16,
        ((w >> 4) & 0xf) < 16,
        (w & 0xfff) < 4096,
        (w & 0xf) < 16,
{
}

/// Whatever `spec_decode` produces is well formed.
pub proof fn lemma_decode_wf(w: u16)
    ensures
        spec_decode(w) matches Some(instr) ==> instr.wf(),
{
    lemma_decode_fields(w);
}

/// Decode one instruction word, exactly as `spec_decode` says.
pub fn decode(w: u16) -> (r: Option<Instr>)
    ensures
        r == spec_decode(w),
        r matches Some(instr) ==> instr.wf(),
{
    proof {
        lemma_decode_wf(w);
    }
    let x = ((w >> 8) & 0xf) as u8;
    let y = ((w >> 4) & 0xf) as u8;
    let nnn = w & 0xfff;
    let nn = (w & 0xff) as u8;
    let n = (w & 0xf) as u8;
    match w & 0xf000 {
        0x0000 => if w == 0x00e0 {
            Some(Instr::ClearScreen)
        } else if w == 0x00ee {
            Some(Instr::Return)
        } else {
            None
        },
        0x1000 => Some(Instr::Jump(nnn)),
        0x2000 => Some(Instr::Call(nnn)),
        0x3000 => Some(Instr::SkipEqImm(x, nn)),
        0x4000 => Some(Instr::SkipNeImm(x, nn)),
        0x5000 => if n == 0 {
            Some(Instr::SkipEqReg(x, y))
        } else {
            None
        },
        0x6000 => Some(Instr::SetImm(x, nn)),
        0x7000 => Some(Instr::AddImm(x, nn)),
        0x8000 => match n {
            0x0 => Some(Instr::Move(x, y)),
            0x1 => Some(Instr::Or(x, y)),
            0x2 => Some(Instr::And(x, y)),
            0x3 => Some(Instr::Xor(x, y)),
            0x4 => Some(Instr::AddRegs(x, y)),
            0x5 => Some(Instr::SubRegs(x, y)),
            0x6 => Some(Instr::ShiftRight(x, y)),
            0x7 => Some(Instr::SubRegsRev(x, y)),
            0xe => Some(Instr::ShiftLeft(x, y)),
            _ => None,
        },
        0x9000 => Some(Instr::SkipNeReg(x, y)),
        0xa000 => Some(Instr::SetIndex(nnn)),
        0xb000 => Some(Instr::JumpOffset(nnn)),
        0xc000 => Some(Instr::RandomMasked(x, nn)),
        0xd000 => Some(Instr::Draw(x, y, n)),
        0xe000 => match nn {
            0x9e => Some(Instr::SkipKeyDown(x)),
            0xa1 => Some(Instr::SkipKeyUp(x)),
            _ => None,
        },
        0xf000 => match nn {
            0x07 => Some(Instr::GetDelay(x)),
            0x0a => Some(Instr::WaitKey(x)),
            0x15 => Some(Instr::SetDelay(x)),
            0x18 => Some(Instr::SetSound(x)),
            0x1e => Some(Instr::AddIndex(x)),
            0x29 => Some(Instr::SpriteAddr(x)),
            0x33 => Some(Instr::StoreBcd(x)),
            0x55 => Some(Instr::StoreRegs(x)),
            0x65 => Some(Instr::LoadRegs(x)),
            _ => None,
        },
        _ => None,
    }
}

} // verus!
