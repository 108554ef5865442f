//! Instruction decode: classifies a 16-bit opcode word into a closed set
//! of operations with their decoded operand fields. Decode is a pure
//! function of the opcode; execution is a separate step.

use vstd::prelude::*;

verus! {

/// One decoded operation. Field meanings follow the opcode layout:
/// `x` and `y` are register indices (4-bit fields, so always below 16),
/// `kk` an 8-bit immediate, `nnn` a 12-bit address, `n` a 4-bit count.
#[derive(Clone, Copy, PartialEq, Eq, Structural, Debug)]
pub enum Instruction {
    /// 00E0: set every framebuffer cell to unset.
    Clear,
    /// 00EE: return from subroutine.
    Ret,
    /// 1nnn: jump to `nnn`.
    Jump { nnn: u16 },
    /// 2nnn: call the subroutine at `nnn`.
    Call { nnn: u16 },
    /// 3xkk: skip the next instruction if `Vx == kk`.
    SkipEqImm { x: u8, kk: u8 },
    /// 4xkk: skip the next instruction if `Vx != kk`.
    SkipNeImm { x: u8, kk: u8 },
    /// 5xy0: skip the next instruction if `Vx == Vy`.
    SkipEqReg { x: u8, y: u8 },
    /// 9xy0: skip the next instruction if `Vx != Vy`.
    SkipNeReg { x: u8, y: u8 },
    /// 6xkk: `Vx = kk`.
    SetImm { x: u8, kk: u8 },
    /// 7xkk: `Vx += kk`, wrapping, flags untouched.
    AddImm { x: u8, kk: u8 },
    /// 8xy0: `Vx = Vy`.
    CopyReg { x: u8, y: u8 },
    /// 8xy1: `Vx |= Vy`.
    OrReg { x: u8, y: u8 },
    /// 8xy2: `Vx &= Vy`.
    AndReg { x: u8, y: u8 },
    /// 8xy3: `Vx ^= Vy`.
    XorReg { x: u8, y: u8 },
    /// 8xy4: `Vx += Vy`, VF = 1 on unsigned overflow else 0.
    AddReg { x: u8, y: u8 },
    /// 8xy5: `Vx -= Vy`, wrapped; VF = 1 if no borrow else 0.
    SubReg { x: u8, y: u8 },
    /// 8xy6: VF = least-significant bit of `Vx`, then `Vx >>= 1`.
    ShrReg { x: u8 },
    /// 8xy7: `Vx = Vy - Vx`, wrapped; VF = 1 if no borrow else 0.
    SubnReg { x: u8, y: u8 },
    /// 8xyE: VF = `(Vx & 0x08) >> 7`, then `Vx <<= 1`. The flag source
    /// inspects bit 3 rather than the conventional top bit of `Vx`; this
    /// quirk is kept deliberately, exactly as written here.
    ShlReg { x: u8 },
    /// Annn: `I = nnn`.
    SetIndex { nnn: u16 },
    /// Fx1E: `I += Vx`, wrapping 16-bit.
    AddIndex { x: u8 },
    /// Cxkk: `Vx = random byte & kk`.
    Random { x: u8, kk: u8 },
    /// Dxyn: draw the `n`-byte sprite at memory `I` at (`Vx`, `Vy`).
    Draw { x: u8, y: u8, n: u8 },
    /// Ex9E: skip the next instruction if key `Vx` is pressed.
    SkipKey { x: u8 },
    /// ExA1: skip the next instruction if key `Vx` is not pressed.
    SkipNoKey { x: u8 },
    /// Fx0A: wait for a key: store the lowest pressed key into `Vx`, or
    /// re-execute this instruction on the next cycle if none is pressed.
    WaitKey { x: u8 },
    /// Fx07: `Vx = delay timer`.
    ReadDelay { x: u8 },
    /// Fx15: `delay timer = Vx`.
    SetDelay { x: u8 },
    /// Fx18: `sound timer = Vx`.
    SetSound { x: u8 },
    /// Fx29: `I = Vx * 5`, the address of a 5-byte character glyph.
    FontIndex { x: u8 },
    /// Fx33: store the decimal digits of `Vx` at `I`, `I+1`, `I+2`.
    StoreBcd { x: u8 },
    /// Fx55: store `V0..=Vx` at `I..=I+x`; `I` itself is unchanged.
    StoreRegs { x: u8 },
    /// Fx65: load `V0..=Vx` from `I..=I+x`; `I` itself is unchanged.
    LoadRegs { x: u8 },
    /// Any opcode outside the defined set: reported, then treated as a
    /// no-op apart from the normal program-counter advance.
    Unknown,
}

impl Instruction {
    /// Every register-index field is a register index. Decoded
    /// instructions always satisfy this, the fields being 4-bit.
    pub open spec fn wf(self) -> bool {
        match self {
            Instruction::SkipEqImm { x, .. } => x < 16,
            Instruction::SkipNeImm { x, .. } => x < 16,
            Instruction::SkipEqReg { x, y } => x < 16 && y < 16,
            Instruction::SkipNeReg { x, y } => x < 16 && y < 16,
            Instruction::SetImm { x, .. } => x < 16,
            Instruction::AddImm { x, .. } => x < 16,
            Instruction::CopyReg { x, y } => x < 16 && y < 16,
            Instruction::OrReg { x, y } => x < 16 && y < 16,
            Instruction::AndReg { x, y } => x < 16 && y < 16,
            Instruction::XorReg { x, y } => x < 16 && y < 16,
            Instruction::AddReg { x, y } => x < 16 && y < 16,
            Instruction::SubReg { x, y } => x < 16 && y < 16,
            Instruction::ShrReg { x } => x < 16,
            Instruction::SubnReg { x, y } => x < 16 && y < 16,
            Instruction::ShlReg { x } => x < 16,
            Instruction::AddIndex { x } => x < 16,
            Instruction::Random { x, .. } => x < 16,
            Instruction::Draw { x, y, n } => x < 16 && y < 16 && n < 16,
            Instruction::SkipKey { x } => x < 16,
            Instruction::SkipNoKey { x } => x < 16,
            Instruction::WaitKey { x } => x < 16,
            Instruction::ReadDelay { x } => x < 16,
            Instruction::SetDelay { x } => x < 16,
            Instruction::SetSound { x } => x < 16,
            Instruction::FontIndex { x } => x < 16,
            Instruction::StoreBcd { x } => x < 16,
            Instruction::StoreRegs { x } => x < 16,
            Instruction::LoadRegs { x } => x < 16,
            Instruction::Jump { nnn } => nnn < 0x1000,
            Instruction::Call { nnn } => nnn < 0x1000,
            Instruction::SetIndex { nnn } => nnn < 0x1000,
            _ => true,
        }
    }
}

/// What each opcode decodes to: classification by the high nibble, then,
/// for the ambiguous families, by the low nibble or low byte.
pub open spec fn spec_decode(op: u16) -> Instruction {
    let h = op / 0x1000;
    let x = ((op / 0x100) % 0x10) as u8;
    let y = ((op / 0x10) % 0x10) as u8;
    let n = (op % 0x10) as u8;
    let kk = (op % 0x100) as u8;
    let nnn = (op % 0x1000) as u16;
    if op == 0x00E0 {
        Instruction::Clear
    } else if op == 0x00EE {
        Instruction::Ret
    } else if h == 0x1 {
        Instruction::Jump { nnn }
    } else if h == 0x2 {
        Instruction::Call { nnn }
    } else if h == 0x3 {
        Instruction::SkipEqImm { x, kk }
    } else if h == 0x4 {
        Instruction::SkipNeImm { x, kk }
    } else if h == 0x5 {
        if n == 0 {
            Instruction::SkipEqReg { x, y }
        } else {
            Instruction::Unknown
        }
    } else if h == 0x6 {
        Instruction::SetImm { x, kk }
    } else if h == 0x7 {
        Instruction::AddImm { x, kk }
    } else if h == 0x8 {
        if n == 0x0 {
            Instruction::CopyReg { x, y }
        } else if n == 0x1 {
            Instruction::OrReg { x, y }
        } else if n == 0x2 {
            Instruction::AndReg { x, y }
        } else if n == 0x3 {
            Instruction::XorReg { x, y }
        } else if n == 0x4 {
            Instruction::AddReg { x, y }
        } else if n == 0x5 {
            Instruction::SubReg { x, y }
        } else if n == 0x6 {
            Instruction::ShrReg { x }
        } else if n == 0x7 {
            Instruction::SubnReg { x, y }
        } else if n == 0xE {
            Instruction::ShlReg { x }
        } else {
            Instruction::Unknown
        }
    } else if h == 0x9 {
        if n == 0 {
            Instruction::SkipNeReg { x, y }
        } else {
            Instruction::Unknown
        }
    } else if h == 0xA {
        Instruction::SetIndex { nnn }
    } else if h == 0xC {
        Instruction::Random { x, kk }
    } else if h == 0xD {
        Instruction::Draw { x, y, n }
    } else if h == 0xE {
        if kk == 0x9E {
            Instruction::SkipKey { x }
        } else if kk == 0xA1 {
            Instruction::SkipNoKey { x }
        } else {
            Instruction::Unknown
        }
    } else if h == 0xF {
        if kk == 0x07 {
            Instruction::ReadDelay { x }
        } else if kk == 0x0A {
            Instruction::WaitKey { x }
        } else if kk == 0x15 {
            Instruction::SetDelay { x }
        } else if kk == 0x18 {
            Instruction::SetSound { x }
        } else if kk == 0x1E {
            Instruction::AddIndex { x }
        } else if kk == 0x29 {
            Instruction::FontIndex { x }
        } else if kk == 0x33 {
            Instruction::StoreBcd { x }
        } else if kk == 0x55 {
            Instruction::StoreRegs { x }
        } else if kk == 0x65 {
            Instruction::LoadRegs { x }
        } else {
            Instruction::Unknown
        }
    } else {
        Instruction::Unknown
    }
}

/// Decoded instructions are well formed: their 4-bit fields are below 16
/// and their 12-bit fields below 0x1000.
pub proof fn lemma_decode_wf(op: u16)
    ensures
        spec_decode(op).wf(),
{
}

/// Decodes one opcode word.
pub fn decode(op: u16) -> (r: Instruction)
    ensures
        r == spec_decode(op),
        r.wf(),
{
    proof {
        lemma_decode_wf(op);
    }
    let h = op / 0x1000;
    let x = ((op / 0x100) % 0x10) as u8;
    let y = ((op / 0x10) % 0x10) as u8;
    let n = (op % 0x10) as u8;
    let kk = (op % 0x100) as u8;
    let nnn = op % 0x1000;
    if op == 0x00E0 {
        Instruction::Clear
    } else if op == 0x00EE {
        Instruction::Ret
    } else if h == 0x1 {
        Instruction::Jump { nnn }
    } else if h == 0x2 {
        Instruction::Call { nnn }
    } else if h == 0x3 {
        Instruction::SkipEqImm { x, kk }
    } else if h == 0x4 {
        Instruction::SkipNeImm { x, kk }
    } else if h == 0x5 {
        if n == 0 {
            Instruction::SkipEqReg { x, y }
        } else {
            Instruction::Unknown
        }
    } else if h == 0x6 {
        Instruction::SetImm { x, kk }
    } else if h == 0x7 {
        Instruction::AddImm { x, kk }
    } else if h == 0x8 {
        if n == 0x0 {
            Instruction::CopyReg { x, y }
        } else if n == 0x1 {
            Instruction::OrReg { x, y }
        } else if n == 0x2 {
            Instruction::AndReg { x, y }
        } else if n == 0x3 {
            Instruction::XorReg { x, y }
        } else if n == 0x4 {
            Instruction::AddReg { x, y }
        } else if n == 0x5 {
            Instruction::SubReg { x, y }
        } else if n == 0x6 {
            Instruction::ShrReg { x }
        } else if n == 0x7 {
            Instruction::SubnReg { x, y }
        } else if n == 0xE {
            Instruction::ShlReg { x }
        } else {
            Instruction::Unknown
        }
    } else if h == 0x9 {
        if n == 0 {
            Instruction::SkipNeReg { x, y }
        } else {
            Instruction::Unknown
        }
    } else if h == 0xA {
        Instruction::SetIndex { nnn }
    } else if h == 0xC {
        Instruction::Random { x, kk }
    } else if h == 0xD {
        Instruction::Draw { x, y, n }
    } else if h == 0xE {
        if kk == 0x9E {
            Instruction::SkipKey { x }
        } else if kk == 0xA1 {
            Instruction::SkipNoKey { x }
        } else {
            Instruction::Unknown
        }
    } else if h == 0xF {
        if kk == 0x07 {
            Instruction::ReadDelay { x }
        } else if kk == 0x0A {
            Instruction::WaitKey { x }
        } else if kk == 0x15 {
            Instruction::SetDelay { x }
        } else if kk == 0x18 {
            Instruction::SetSound { x }
        } else if kk == 0x1E {
            Instruction::AddIndex { x }
        } else if kk == 0x29 {
            Instruction::FontIndex { x }
        } else if kk == 0x33 {
            Instruction::StoreBcd { x }
        } else if kk == 0x55 {
            Instruction::StoreRegs { x }
        } else if kk == 0x65 {
            Instruction::LoadRegs { x }
        } else {
            Instruction::Unknown
        }
    } else {
        Instruction::Unknown
    }
}

} // verus!
