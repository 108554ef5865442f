//! Laws of the interpreter: properties relating several instructions or
//! several runs of one instruction, stated over the machine model and
//! the `step` semantics and proved once for all machines.

use vstd::prelude::*;

use crate::decode::Instruction;
use crate::model::MachineView;
use crate::sem::CycleEvent;
use crate::sem::adv;
use crate::sem::cell_index;
use crate::sem::draw_collision;
use crate::sem::draw_video;
use crate::sem::lemma_cell_bounds;
use crate::sem::sprite_bit;
use crate::sem::step;

verus! {

/// The machine after one `step` that did not fault; unchanged otherwise.
pub open spec fn stepped(pre: MachineView, instr: Instruction, rnd: u8) -> MachineView {
    match step(pre, instr, rnd) {
        Ok((m, _)) => m,
        Err(_) => pre,
    }
}

/// The event one `step` reports, `Normal` for a fault.
pub open spec fn step_event(pre: MachineView, instr: Instruction, rnd: u8) -> CycleEvent {
    match step(pre, instr, rnd) {
        Ok((_, ev)) => ev,
        Err(_) => CycleEvent::Normal,
    }
}

/// Whether one `step` completes without a fatal fault.
pub open spec fn step_ok(pre: MachineView, instr: Instruction, rnd: u8) -> bool {
    step(pre, instr, rnd) matches Ok(_)
}

/// Every instruction but `Random` ignores the random byte, so for them
/// the cycle's outcome is the same whatever the random source supplied.
pub proof fn lemma_step_ignores_rnd(pre: MachineView, instr: Instruction, a: u8, b: u8)
    requires
        !(instr matches Instruction::Random { .. }),
    ensures
        step(pre, instr, a) == step(pre, instr, b),
{
}

/// Loading `kk` into `Vx` and then adding `kk` to it leaves `Vx` holding
/// `(2 * kk) % 256`: the addition wraps. Every other register — the
/// flags register among them — and all machine state apart from the
/// program counter are untouched.
pub proof fn lemma_load_then_add_immediate(pre: MachineView, x: u8, kk: u8)
    requires
        pre.wf(),
        x < 16,
    ensures
        ({
            let m1 = stepped(pre, Instruction::SetImm { x, kk }, 0);
            let m2 = stepped(m1, Instruction::AddImm { x, kk }, 0);
            &&& step_ok(pre, Instruction::SetImm { x, kk }, 0)
            &&& step_ok(m1, Instruction::AddImm { x, kk }, 0)
            &&& step_event(pre, Instruction::SetImm { x, kk }, 0) == CycleEvent::Normal
            &&& step_event(m1, Instruction::AddImm { x, kk }, 0) == CycleEvent::Normal
            &&& m2.regs[x as int] == (2 * kk) % 256
            &&& forall|t: int| 0 <= t < 16 && t != x ==> m2.regs[t] == pre.regs[t]
            &&& m2.memory == pre.memory
            &&& m2.index == pre.index
            &&& m2.stack == pre.stack
            &&& m2.sp == pre.sp
            &&& m2.delay == pre.delay
            &&& m2.sound == pre.sound
            &&& m2.keypad == pre.keypad
            &&& m2.video == pre.video
        }),
{
}

/// Drawing the same sprite at the same location twice returns every
/// framebuffer cell to its state before the first draw.
pub proof fn lemma_double_draw_restores(
    video: Seq<bool>,
    mem: Seq<u8>,
    i: u16,
    x0: u8,
    y0: u8,
    n: u8,
)
    ensures
        draw_video(draw_video(video, mem, i, x0, y0, n), mem, i, x0, y0, n) == video,
{
    let once = draw_video(video, mem, i, x0, y0, n);
    let twice = draw_video(once, mem, i, x0, y0, n);
    assert(twice =~= video);
}

/// After the second of two identical draws the flags register reports a
/// collision exactly when some sprite bit lands on a cell that was unlit
/// before the first draw: the first draw lit that cell, so the second
/// draw unsets it.
pub proof fn lemma_double_draw_collision(
    video: Seq<bool>,
    mem: Seq<u8>,
    i: u16,
    x0: u8,
    y0: u8,
    n: u8,
)
    requires
        video.len() == crate::VIDEO_WIDTH * crate::VIDEO_HEIGHT,
    ensures
        draw_collision(draw_video(video, mem, i, x0, y0, n), mem, i, x0, y0, n) == (exists|
            row: int,
            bit: int,
        |
            #![trigger cell_index(x0, y0, row, bit), sprite_bit(mem[i + row], bit)]
            0 <= row < n && 0 <= bit < 8 && sprite_bit(mem[i + row], bit) && !video[cell_index(
                x0,
                y0,
                row,
                bit,
            )]),
{
    let once = draw_video(video, mem, i, x0, y0, n);
    if draw_collision(once, mem, i, x0, y0, n) {
        let (row, bit) = choose|row: int, bit: int|
            0 <= row && 0 <= bit < 8 && (row < n || (row == n && bit < 0)) && sprite_bit(
                mem[i + row],
                bit,
            ) && once[cell_index(x0, y0, row, bit)];
        lemma_cell_bounds(x0, y0, row, bit);
        assert(!video[cell_index(x0, y0, row, bit)]);
    }
    if exists|row: int, bit: int|
        #![trigger cell_index(x0, y0, row, bit), sprite_bit(mem[i + row], bit)]
        0 <= row < n && 0 <= bit < 8 && sprite_bit(mem[i + row], bit) && !video[cell_index(
            x0,
            y0,
            row,
            bit,
        )] {
        let (row, bit) = choose|row: int, bit: int|
            #![trigger cell_index(x0, y0, row, bit), sprite_bit(mem[i + row], bit)]
            0 <= row < n && 0 <= bit < 8 && sprite_bit(mem[i + row], bit) && !video[cell_index(
                x0,
                y0,
                row,
                bit,
            )];
        lemma_cell_bounds(x0, y0, row, bit);
        assert(once[cell_index(x0, y0, row, bit)]);
        assert(draw_collision(once, mem, i, x0, y0, n));
    }
}

/// A call followed immediately by a return leaves the program counter at
/// the address immediately after the call instruction, at any call depth
/// the stack can hold; the stack pointer, the stack entries below it,
/// and all other machine state are as before.
pub proof fn lemma_call_then_ret(pre: MachineView, nnn: u16)
    requires
        pre.wf(),
        pre.sp < crate::STACK_SIZE,
    ensures
        ({
            let m1 = stepped(pre, Instruction::Call { nnn }, 0);
            let m2 = stepped(m1, Instruction::Ret, 0);
            &&& step_event(pre, Instruction::Call { nnn }, 0) == CycleEvent::Normal
            &&& step_event(m1, Instruction::Ret, 0) == CycleEvent::Normal
            &&& m1.pc == nnn
            &&& m2.pc == adv(pre.pc, 2)
            &&& m2.sp == pre.sp
            &&& forall|t: int| 0 <= t < pre.sp ==> m2.stack[t] == pre.stack[t]
            &&& m2.regs == pre.regs
            &&& m2.memory == pre.memory
            &&& m2.index == pre.index
            &&& m2.delay == pre.delay
            &&& m2.sound == pre.sound
            &&& m2.keypad == pre.keypad
            &&& m2.video == pre.video
        }),
{
}

/// A call on a full stack — the seventeenth nested call — is reported as
/// an overflow: nothing is pushed and nothing changes beyond the normal
/// program-counter advance.
pub proof fn lemma_call_overflow(pre: MachineView, nnn: u16)
    requires
        pre.wf(),
        pre.sp == crate::STACK_SIZE,
    ensures
        step_event(pre, Instruction::Call { nnn }, 0) == CycleEvent::StackOverflow,
        stepped(pre, Instruction::Call { nnn }, 0) == (MachineView { pc: adv(pre.pc, 2), ..pre }),
{
}

/// Skip-if-equal moves the program counter ahead by four when `Vx == kk`
/// and by two when `Vx != kk`; nothing else changes.
pub proof fn lemma_skip_eq_immediate(pre: MachineView, x: u8, kk: u8)
    requires
        pre.wf(),
        x < 16,
    ensures
        ({
            let m = stepped(pre, Instruction::SkipEqImm { x, kk }, 0);
            &&& step_event(pre, Instruction::SkipEqImm { x, kk }, 0) == CycleEvent::Normal
            &&& pre.regs[x as int] == kk ==> m == (MachineView { pc: adv(pre.pc, 4), ..pre })
            &&& pre.regs[x as int] != kk ==> m == (MachineView { pc: adv(pre.pc, 2), ..pre })
        }),
{
}

} // verus!
