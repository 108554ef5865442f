//! The per-instruction semantics, as functions over the machine model.
//! `step` says exactly what one executed instruction does to the machine:
//! the executable cycle is proved against it, and the interpreter's laws
//! are stated over it.

use vstd::prelude::*;

use crate::decode::Instruction;
use crate::model::MachineView;
use crate::model::first_pressed;

verus! {

/// What a completed cycle reports. The non-`Normal` cases are the
/// recoverable, cycle-local conditions: they are reported and the cycle
/// completes without corrupting unrelated state.
#[derive(Clone, Copy, PartialEq, Eq, Structural, Debug)]
pub enum CycleEvent {
    /// The instruction executed without incident.
    Normal,
    /// Return with an empty stack; the cycle aborts with no state change.
    StackUnderflow,
    /// Call with a full stack; nothing is pushed and the program counter
    /// advances normally.
    StackOverflow,
    /// An opcode outside the defined set; a no-op apart from the normal
    /// program-counter advance.
    UnknownOpcode,
}

/// A fatal fault: execution of the cycle is refused and the machine is
/// left exactly as it was.
#[derive(Clone, Copy, PartialEq, Eq, Structural, Debug)]
pub enum Fault {
    /// A fetch or a memory-indexed instruction would touch an address at
    /// or past `MEMORY_SIZE`.
    MemoryOutOfBounds,
    /// A keypad instruction named a key index above 15.
    KeyOutOfRange,
}

/// A program counter moved by `k` bytes, wrapping at 16 bits.
pub open spec fn adv(pc: u16, k: int) -> u16 {
    ((pc + k) % 0x10000) as u16
}

/// The place value of sprite bit `bit`, most significant first.
pub open spec fn bit_weight(bit: int) -> u8 {
    if bit == 0 {
        128
    } else if bit == 1 {
        64
    } else if bit == 2 {
        32
    } else if bit == 3 {
        16
    } else if bit == 4 {
        8
    } else if bit == 5 {
        4
    } else if bit == 6 {
        2
    } else {
        1
    }
}

/// Whether bit `bit` (0 = leftmost pixel) of a sprite row byte is set.
pub open spec fn sprite_bit(b: u8, bit: int) -> bool {
    (b / bit_weight(bit)) % 2 == 1
}

/// The framebuffer cell that row `row`, bit `bit` of a sprite drawn at
/// (`x0`, `y0`) lands on; both coordinates wrap modulo the screen size.
pub open spec fn cell_index(x0: u8, y0: u8, row: int, bit: int) -> int {
    ((y0 + row) % (crate::VIDEO_HEIGHT as int)) * (crate::VIDEO_WIDTH as int) + (x0 + bit) % (
    crate::VIDEO_WIDTH as int)
}

/// Whether some sprite bit strictly before row `r`, bit `b` — that is,
/// in a full earlier row, or earlier within row `r` — is set and lands on
/// framebuffer cell `p`.
pub open spec fn covers_before(mem: Seq<u8>, i: u16, x0: u8, y0: u8, p: int, r: int, b: int) -> bool {
    exists|row: int, bit: int|
        #![trigger cell_index(x0, y0, row, bit), sprite_bit(mem[i + row], bit)]
        0 <= row && 0 <= bit < 8 && (row < r || (row == r && bit < b)) && sprite_bit(
            mem[i + row],
            bit,
        ) && cell_index(x0, y0, row, bit) == p
}

/// Whether drawing the `n`-row sprite at memory `i` at (`x0`, `y0`)
/// toggles framebuffer cell `p`.
pub open spec fn draw_covers(mem: Seq<u8>, i: u16, x0: u8, y0: u8, n: u8, p: int) -> bool {
    covers_before(mem, i, x0, y0, p, n as int, 0)
}

/// The framebuffer after the draw: every covered cell is toggled.
pub open spec fn draw_video(video: Seq<bool>, mem: Seq<u8>, i: u16, x0: u8, y0: u8, n: u8) -> Seq<
    bool,
> {
    Seq::new(video.len(), |p: int| video[p] != draw_covers(mem, i, x0, y0, n, p))
}

/// Whether some sprite bit strictly before row `r`, bit `b` is set and
/// lands on a cell of `video` that is lit.
pub open spec fn collision_before(
    video: Seq<bool>,
    mem: Seq<u8>,
    i: u16,
    x0: u8,
    y0: u8,
    r: int,
    b: int,
) -> bool {
    exists|row: int, bit: int|
        #![trigger cell_index(x0, y0, row, bit), sprite_bit(mem[i + row], bit)]
        0 <= row && 0 <= bit < 8 && (row < r || (row == r && bit < b)) && sprite_bit(
            mem[i + row],
            bit,
        ) && video[cell_index(x0, y0, row, bit)]
}

/// Whether the draw unsets some cell that was lit: a sprite bit lands on
/// a lit cell.
pub open spec fn draw_collision(video: Seq<bool>, mem: Seq<u8>, i: u16, x0: u8, y0: u8, n: u8) -> bool {
    collision_before(video, mem, i, x0, y0, n as int, 0)
}

/// What one executed instruction does to the machine. `rnd` is the byte
/// the random source supplied for this cycle; every instruction except
/// `Random` ignores it.
pub open spec fn step(pre: MachineView, instr: Instruction, rnd: u8) -> Result<
    (MachineView, CycleEvent),
    Fault,
> {
    match instr {
        Instruction::Clear => Ok(
            (
                MachineView {
                    video: Seq::new(pre.video.len(), |p: int| false),
                    pc: adv(pre.pc, 2),
                    ..pre
                },
                CycleEvent::Normal,
            ),
        ),
        Instruction::Ret => {
            if pre.sp == 0 {
                Ok((pre, CycleEvent::StackUnderflow))
            } else {
                Ok(
                    (
                        MachineView {
                            pc: pre.stack[pre.sp - 1],
                            sp: (pre.sp - 1) as u8,
                            ..pre
                        },
                        CycleEvent::Normal,
                    ),
                )
            }
        },
        Instruction::Jump { nnn } => Ok((MachineView { pc: nnn, ..pre }, CycleEvent::Normal)),
        Instruction::Call { nnn } => {
            if pre.sp >= crate::STACK_SIZE {
                Ok((MachineView { pc: adv(pre.pc, 2), ..pre }, CycleEvent::StackOverflow))
            } else {
                Ok(
                    (
                        MachineView {
                            stack: pre.stack.update(pre.sp as int, adv(pre.pc, 2)),
                            sp: (pre.sp + 1) as u8,
                            pc: nnn,
                            ..pre
                        },
                        CycleEvent::Normal,
                    ),
                )
            }
        },
        Instruction::SkipEqImm { x, kk } => Ok(
            (
                MachineView {
                    pc: adv(pre.pc, if pre.regs[x as int] == kk { 4int } else { 2int }),
                    ..pre
                },
                CycleEvent::Normal,
            ),
        ),
        Instruction::SkipNeImm { x, kk } => Ok(
            (
                MachineView {
                    pc: adv(pre.pc, if pre.regs[x as int] != kk { 4int } else { 2int }),
                    ..pre
                },
                CycleEvent::Normal,
            ),
        ),
        Instruction::SkipEqReg { x, y } => Ok(
            (
                MachineView {
                    pc: adv(
                        pre.pc,
                        if pre.regs[x as int] == pre.regs[y as int] { 4int } else { 2int },
                    ),
                    ..pre
                },
                CycleEvent::Normal,
            ),
        ),
        Instruction::SkipNeReg { x, y } => Ok(
            (
                MachineView {
                    pc: adv(
                        pre.pc,
                        if pre.regs[x as int] != pre.regs[y as int] { 4int } else { 2int },
                    ),
                    ..pre
                },
                CycleEvent::Normal,
            ),
        ),
        Instruction::SetImm { x, kk } => Ok(
            (
                MachineView { regs: pre.regs.update(x as int, kk), pc: adv(pre.pc, 2), ..pre },
                CycleEvent::Normal,
            ),
        ),
        Instruction::AddImm { x, kk } => Ok(
            (
                MachineView {
                    regs: pre.regs.update(x as int, ((pre.regs[x as int] + kk) % 256) as u8),
                    pc: adv(pre.pc, 2),
                    ..pre
                },
                CycleEvent::Normal,
            ),
        ),
        Instruction::CopyReg { x, y } => Ok(
            (
                MachineView {
                    regs: pre.regs.update(x as int, pre.regs[y as int]),
                    pc: adv(pre.pc, 2),
                    ..pre
                },
                CycleEvent::Normal,
            ),
        ),
        Instruction::OrReg { x, y } => Ok(
            (
                MachineView {
                    regs: pre.regs.update(x as int, pre.regs[x as int] | pre.regs[y as int]),
                    pc: adv(pre.pc, 2),
                    ..pre
                },
                CycleEvent::Normal,
            ),
        ),
        Instruction::AndReg { x, y } => Ok(
            (
                MachineView {
                    regs: pre.regs.update(x as int, pre.regs[x as int] & pre.regs[y as int]),
                    pc: adv(pre.pc, 2),
                    ..pre
                },
                CycleEvent::Normal,
            ),
        ),
        Instruction::XorReg { x, y } => Ok(
            (
                MachineView {
                    regs: pre.regs.update(x as int, pre.regs[x as int] ^ pre.regs[y as int]),
                    pc: adv(pre.pc, 2),
                    ..pre
                },
                CycleEvent::Normal,
            ),
        ),
        Instruction::AddReg { x, y } => {
            let sum = pre.regs[x as int] + pre.regs[y as int];
            let carry: u8 = if sum > 255 {
                1
            } else {
                0
            };
            Ok(
                (
                    MachineView {
                        regs: pre.regs.update(x as int, (sum % 256) as u8).update(15, carry),
                        pc: adv(pre.pc, 2),
                        ..pre
                    },
                    CycleEvent::Normal,
                ),
            )
        },
        Instruction::SubReg { x, y } => {
            let vx = pre.regs[x as int];
            let vy = pre.regs[y as int];
            let no_borrow: u8 = if vx >= vy {
                1
            } else {
                0
            };
            Ok(
                (
                    MachineView {
                        regs: pre.regs.update(x as int, ((vx + 256 - vy) % 256) as u8).update(
                            15,
                            no_borrow,
                        ),
                        pc: adv(pre.pc, 2),
                        ..pre
                    },
                    CycleEvent::Normal,
                ),
            )
        },
        Instruction::ShrReg { x } => {
            let flagged = pre.regs.update(15, pre.regs[x as int] & 1);
            Ok(
                (
                    MachineView {
                        regs: flagged.update(x as int, flagged[x as int] / 2),
                        pc: adv(pre.pc, 2),
                        ..pre
                    },
                    CycleEvent::Normal,
                ),
            )
        },
        Instruction::SubnReg { x, y } => {
            let vx = pre.regs[x as int];
            let vy = pre.regs[y as int];
            let no_borrow: u8 = if vy >= vx {
                1
            } else {
                0
            };
            Ok(
                (
                    MachineView {
                        regs: pre.regs.update(x as int, ((vy + 256 - vx) % 256) as u8).update(
                            15,
                            no_borrow,
                        ),
                        pc: adv(pre.pc, 2),
                        ..pre
                    },
                    CycleEvent::Normal,
                ),
            )
        },
        Instruction::ShlReg { x } => {
            let flagged = pre.regs.update(15, (pre.regs[x as int] & 0x08) / 128);
            Ok(
                (
                    MachineView {
                        regs: flagged.update(x as int, ((flagged[x as int] * 2) % 256) as u8),
                        pc: adv(pre.pc, 2),
                        ..pre
                    },
                    CycleEvent::Normal,
                ),
            )
        },
        Instruction::SetIndex { nnn } => Ok(
            (MachineView { index: nnn, pc: adv(pre.pc, 2), ..pre }, CycleEvent::Normal),
        ),
        Instruction::AddIndex { x } => Ok(
            (
                MachineView {
                    index: ((pre.index + pre.regs[x as int]) % 0x10000) as u16,
                    pc: adv(pre.pc, 2),
                    ..pre
                },
                CycleEvent::Normal,
            ),
        ),
        Instruction::Random { x, kk } => Ok(
            (
                MachineView {
                    regs: pre.regs.update(x as int, rnd & kk),
                    pc: adv(pre.pc, 2),
                    ..pre
                },
                CycleEvent::Normal,
            ),
        ),
        Instruction::Draw { x, y, n } => {
            if n > 0 && pre.index + n > crate::MEMORY_SIZE {
                Err(Fault::MemoryOutOfBounds)
            } else {
                let x0 = pre.regs[x as int];
                let y0 = pre.regs[y as int];
                let coll = draw_collision(pre.video, pre.memory, pre.index, x0, y0, n);
                Ok(
                    (
                        MachineView {
                            video: draw_video(pre.video, pre.memory, pre.index, x0, y0, n),
                            regs: pre.regs.update(15, if coll { 1u8 } else { 0u8 }),
                            pc: adv(pre.pc, 2),
                            ..pre
                        },
                        CycleEvent::Normal,
                    ),
                )
            }
        },
        Instruction::SkipKey { x } => {
            let key = pre.regs[x as int];
            if key >= crate::KEYPAD_SIZE {
                Err(Fault::KeyOutOfRange)
            } else {
                Ok(
                    (
                        MachineView {
                            pc: adv(pre.pc, if pre.keypad[key as int] { 4int } else { 2int }),
                            ..pre
                        },
                        CycleEvent::Normal,
                    ),
                )
            }
        },
        Instruction::SkipNoKey { x } => {
            let key = pre.regs[x as int];
            if key >= crate::KEYPAD_SIZE {
                Err(Fault::KeyOutOfRange)
            } else {
                Ok(
                    (
                        MachineView {
                            pc: adv(pre.pc, if !pre.keypad[key as int] { 4int } else { 2int }),
                            ..pre
                        },
                        CycleEvent::Normal,
                    ),
                )
            }
        },
        Instruction::WaitKey { x } => {
            let k = first_pressed(pre.keypad, 0);
            if k < crate::KEYPAD_SIZE {
                Ok(
                    (
                        MachineView {
                            regs: pre.regs.update(x as int, k as u8),
                            pc: adv(pre.pc, 2),
                            ..pre
                        },
                        CycleEvent::Normal,
                    ),
                )
            } else {
                Ok((pre, CycleEvent::Normal))
            }
        },
        Instruction::ReadDelay { x } => Ok(
            (
                MachineView {
                    regs: pre.regs.update(x as int, pre.delay),
                    pc: adv(pre.pc, 2),
                    ..pre
                },
                CycleEvent::Normal,
            ),
        ),
        Instruction::SetDelay { x } => Ok(
            (
                MachineView { delay: pre.regs[x as int], pc: adv(pre.pc, 2), ..pre },
                CycleEvent::Normal,
            ),
        ),
        Instruction::SetSound { x } => Ok(
            (
                MachineView { sound: pre.regs[x as int], pc: adv(pre.pc, 2), ..pre },
                CycleEvent::Normal,
            ),
        ),
        Instruction::FontIndex { x } => Ok(
            (
                MachineView {
                    index: (pre.regs[x as int] * 5) as u16,
                    pc: adv(pre.pc, 2),
                    ..pre
                },
                CycleEvent::Normal,
            ),
        ),
        Instruction::StoreBcd { x } => {
            if pre.index + 2 >= crate::MEMORY_SIZE {
                Err(Fault::MemoryOutOfBounds)
            } else {
                let vx = pre.regs[x as int];
                Ok(
                    (
                        MachineView {
                            memory: pre.memory.update(pre.index as int, (vx / 100) as u8).update(
                                pre.index + 1,
                                ((vx % 100) / 10) as u8,
                            ).update(pre.index + 2, (vx % 10) as u8),
                            pc: adv(pre.pc, 2),
                            ..pre
                        },
                        CycleEvent::Normal,
                    ),
                )
            }
        },
        Instruction::StoreRegs { x } => {
            if pre.index + x >= crate::MEMORY_SIZE {
                Err(Fault::MemoryOutOfBounds)
            } else {
                Ok(
                    (
                        MachineView {
                            memory: pre.memory.map(
                                |a: int, b: u8|
                                    if pre.index <= a <= pre.index + x {
                                        pre.regs[a - pre.index]
                                    } else {
                                        b
                                    },
                            ),
                            pc: adv(pre.pc, 2),
                            ..pre
                        },
                        CycleEvent::Normal,
                    ),
                )
            }
        },
        Instruction::LoadRegs { x } => {
            if pre.index + x >= crate::MEMORY_SIZE {
                Err(Fault::MemoryOutOfBounds)
            } else {
                Ok(
                    (
                        MachineView {
                            regs: pre.regs.map(
                                |j: int, v: u8|
                                    if j <= x {
                                        pre.memory[pre.index + j]
                                    } else {
                                        v
                                    },
                            ),
                            pc: adv(pre.pc, 2),
                            ..pre
                        },
                        CycleEvent::Normal,
                    ),
                )
            }
        },
        Instruction::Unknown => Ok(
            (MachineView { pc: adv(pre.pc, 2), ..pre }, CycleEvent::UnknownOpcode),
        ),
    }
}

/// Whether the two instruction bytes at the program counter are in
/// bounds; when they are not, the fetch is a fatal fault.
pub open spec fn fetch_ok(m: MachineView) -> bool {
    m.pc + 1 < crate::MEMORY_SIZE
}

/// The opcode word at the program counter: two consecutive bytes
/// combined big-endian.
pub open spec fn fetched_op(m: MachineView) -> u16 {
    (m.memory[m.pc as int] * 256 + m.memory[m.pc as int + 1]) as u16
}

/// What one whole cycle leaves behind, fetch and decode included, when
/// the random source supplied `rnd`: either the stepped machine with its
/// report, or the pre-state unchanged with the fault.
pub open spec fn cycle_post(
    pre: MachineView,
    post: MachineView,
    r: Result<CycleEvent, Fault>,
    rnd: u8,
) -> bool {
    match step(pre, crate::decode::spec_decode(fetched_op(pre)), rnd) {
        Ok((m, ev)) => post == m && r == Ok::<CycleEvent, Fault>(ev),
        Err(f) => post == pre && r == Err::<CycleEvent, Fault>(f),
    }
}

/// A framebuffer cell index is within the framebuffer.
pub proof fn lemma_cell_bounds(x0: u8, y0: u8, row: int, bit: int)
    ensures
        0 <= cell_index(x0, y0, row, bit) < crate::VIDEO_WIDTH * crate::VIDEO_HEIGHT,
{
}

/// Distinct sprite positions land on distinct framebuffer cells, as long
/// as the sprite spans fewer rows than the screen has and fewer columns
/// than the screen is wide.
pub proof fn lemma_cell_injective(x0: u8, y0: u8, r1: int, b1: int, r2: int, b2: int)
    requires
        0 <= r1 < 16,
        0 <= b1 < 8,
        0 <= r2 < 16,
        0 <= b2 < 8,
        cell_index(x0, y0, r1, b1) == cell_index(x0, y0, r2, b2),
    ensures
        r1 == r2,
        b1 == b2,
{
    let ya = (y0 + r1) % 32;
    let yb = (y0 + r2) % 32;
    let xa = (x0 + b1) % 64;
    let xb = (x0 + b2) % 64;
    assert(ya * 64 + xa == yb * 64 + xb);
    assert(ya == yb && xa == xb);
    vstd::arithmetic::div_mod::lemma_fundamental_div_mod(y0 + r1, 32);
    vstd::arithmetic::div_mod::lemma_fundamental_div_mod(y0 + r2, 32);
    let qa = (y0 + r1) / 32;
    let qb = (y0 + r2) / 32;
    assert(r1 - r2 == 32 * (qa - qb));
    assert(r1 == r2);
    vstd::arithmetic::div_mod::lemma_fundamental_div_mod(x0 + b1, 64);
    vstd::arithmetic::div_mod::lemma_fundamental_div_mod(x0 + b2, 64);
    let pa = (x0 + b1) / 64;
    let pb = (x0 + b2) / 64;
    assert(b1 - b2 == 64 * (pa - pb));
    assert(b1 == b2);
}

/// The cell that sprite position (`r`, `b`) lands on is untouched by the
/// positions before it.
pub proof fn lemma_fresh_cell(mem: Seq<u8>, i: u16, x0: u8, y0: u8, r: int, b: int)
    requires
        0 <= r < 16,
        0 <= b < 8,
    ensures
        !covers_before(mem, i, x0, y0, cell_index(x0, y0, r, b), r, b),
{
    let p = cell_index(x0, y0, r, b);
    if covers_before(mem, i, x0, y0, p, r, b) {
        let (row, bit) = choose|row: int, bit: int|
            0 <= row && 0 <= bit < 8 && (row < r || (row == r && bit < b)) && sprite_bit(
                mem[i + row],
                bit,
            ) && cell_index(x0, y0, row, bit) == p;
        lemma_cell_injective(x0, y0, row, bit, r, b);
        assert(false);
    }
}

/// Before any sprite position is processed, nothing is covered.
pub proof fn lemma_covers_none(mem: Seq<u8>, i: u16, x0: u8, y0: u8, p: int)
    ensures
        !covers_before(mem, i, x0, y0, p, 0, 0),
{
}

/// Before any sprite position is processed, nothing has collided.
pub proof fn lemma_collision_none(video: Seq<bool>, mem: Seq<u8>, i: u16, x0: u8, y0: u8)
    ensures
        !collision_before(video, mem, i, x0, y0, 0, 0),
{
}

/// Advancing one bit position extends the covered positions by exactly
/// the one at row `r`, bit `b`.
pub proof fn lemma_covers_step(mem: Seq<u8>, i: u16, x0: u8, y0: u8, p: int, r: int, b: int)
    requires
        0 <= r,
        0 <= b < 8,
    ensures
        covers_before(mem, i, x0, y0, p, r, b + 1) == (covers_before(mem, i, x0, y0, p, r, b) || (
        sprite_bit(mem[i + r], b) && cell_index(x0, y0, r, b) == p)),
{
    if covers_before(mem, i, x0, y0, p, r, b + 1) {
        let (row, bit) = choose|row: int, bit: int|
            0 <= row && 0 <= bit < 8 && (row < r || (row == r && bit < b + 1)) && sprite_bit(
                mem[i + row],
                bit,
            ) && cell_index(x0, y0, row, bit) == p;
        if row == r && bit == b {
            assert(sprite_bit(mem[i + r], b) && cell_index(x0, y0, r, b) == p);
        } else {
            assert(covers_before(mem, i, x0, y0, p, r, b));
        }
    }
    if covers_before(mem, i, x0, y0, p, r, b) {
        let (row, bit) = choose|row: int, bit: int|
            0 <= row && 0 <= bit < 8 && (row < r || (row == r && bit < b)) && sprite_bit(
                mem[i + row],
                bit,
            ) && cell_index(x0, y0, row, bit) == p;
        assert(covers_before(mem, i, x0, y0, p, r, b + 1));
    }
    if sprite_bit(mem[i + r], b) && cell_index(x0, y0, r, b) == p {
        assert(covers_before(mem, i, x0, y0, p, r, b + 1));
    }
}

/// Finishing a row: the positions before (`r`, 8) are the positions
/// before (`r + 1`, 0).
pub proof fn lemma_covers_row(mem: Seq<u8>, i: u16, x0: u8, y0: u8, p: int, r: int)
    requires
        0 <= r,
    ensures
        covers_before(mem, i, x0, y0, p, r, 8) == covers_before(mem, i, x0, y0, p, r + 1, 0),
{
    if covers_before(mem, i, x0, y0, p, r, 8) {
        let (row, bit) = choose|row: int, bit: int|
            0 <= row && 0 <= bit < 8 && (row < r || (row == r && bit < 8)) && sprite_bit(
                mem[i + row],
                bit,
            ) && cell_index(x0, y0, row, bit) == p;
        assert(covers_before(mem, i, x0, y0, p, r + 1, 0));
    }
    if covers_before(mem, i, x0, y0, p, r + 1, 0) {
        let (row, bit) = choose|row: int, bit: int|
            0 <= row && 0 <= bit < 8 && (row < r + 1 || (row == r + 1 && bit < 0)) && sprite_bit(
                mem[i + row],
                bit,
            ) && cell_index(x0, y0, row, bit) == p;
        assert(covers_before(mem, i, x0, y0, p, r, 8));
    }
}

/// Advancing one bit position extends the collisions by exactly the one
/// at row `r`, bit `b`.
pub proof fn lemma_collision_step(
    video: Seq<bool>,
    mem: Seq<u8>,
    i: u16,
    x0: u8,
    y0: u8,
    r: int,
    b: int,
)
    requires
        0 <= r,
        0 <= b < 8,
    ensures
        collision_before(video, mem, i, x0, y0, r, b + 1) == (collision_before(
            video,
            mem,
            i,
            x0,
            y0,
            r,
            b,
        ) || (sprite_bit(mem[i + r], b) && video[cell_index(x0, y0, r, b)])),
{
    if collision_before(video, mem, i, x0, y0, r, b + 1) {
        let (row, bit) = choose|row: int, bit: int|
            0 <= row && 0 <= bit < 8 && (row < r || (row == r && bit < b + 1)) && sprite_bit(
                mem[i + row],
                bit,
            ) && video[cell_index(x0, y0, row, bit)];
        if row == r && bit == b {
            assert(sprite_bit(mem[i + r], b) && video[cell_index(x0, y0, r, b)]);
        } else {
            assert(collision_before(video, mem, i, x0, y0, r, b));
        }
    }
    if collision_before(video, mem, i, x0, y0, r, b) {
        let (row, bit) = choose|row: int, bit: int|
            0 <= row && 0 <= bit < 8 && (row < r || (row == r && bit < b)) && sprite_bit(
                mem[i + row],
                bit,
            ) && video[cell_index(x0, y0, row, bit)];
        assert(collision_before(video, mem, i, x0, y0, r, b + 1));
    }
    if sprite_bit(mem[i + r], b) && video[cell_index(x0, y0, r, b)] {
        assert(collision_before(video, mem, i, x0, y0, r, b + 1));
    }
}

/// Finishing a row: the collisions before (`r`, 8) are the collisions
/// before (`r + 1`, 0).
pub proof fn lemma_collision_row(video: Seq<bool>, mem: Seq<u8>, i: u16, x0: u8, y0: u8, r: int)
    requires
        0 <= r,
    ensures
        collision_before(video, mem, i, x0, y0, r, 8) == collision_before(
            video,
            mem,
            i,
            x0,
            y0,
            r + 1,
            0,
        ),
{
    if collision_before(video, mem, i, x0, y0, r, 8) {
        let (row, bit) = choose|row: int, bit: int|
            0 <= row && 0 <= bit < 8 && (row < r || (row == r && bit < 8)) && sprite_bit(
                mem[i + row],
                bit,
            ) && video[cell_index(x0, y0, row, bit)];
        assert(collision_before(video, mem, i, x0, y0, r + 1, 0));
    }
    if collision_before(video, mem, i, x0, y0, r + 1, 0) {
        let (row, bit) = choose|row: int, bit: int|
            0 <= row && 0 <= bit < 8 && (row < r + 1 || (row == r + 1 && bit < 0)) && sprite_bit(
                mem[i + row],
                bit,
            ) && video[cell_index(x0, y0, row, bit)];
        assert(collision_before(video, mem, i, x0, y0, r, 8));
    }
}

} // verus!
