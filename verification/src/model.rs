//! The mathematical model of the machine state. Every contract of the
//! interpreter speaks of values of this model, obtained from the
//! executable state through its view.

use vstd::prelude::*;

verus! {

/// A snapshot of the whole machine: memory, registers, index register,
/// program counter, call stack with its stack pointer, the two countdown
/// timers, the keypad, and the framebuffer (row-major, `true` is lit).
#[verifier::ext_equal]
pub ghost struct MachineView {
    pub memory: Seq<u8>,
    pub regs: Seq<u8>,
    pub index: u16,
    pub pc: u16,
    pub stack: Seq<u16>,
    pub sp: u8,
    pub delay: u8,
    pub sound: u8,
    pub keypad: Seq<bool>,
    pub video: Seq<bool>,
}

impl MachineView {
    /// Well-formedness: every component has its fixed size and the stack
    /// pointer stays within the stack's capacity.
    pub open spec fn wf(self) -> bool {
        &&& self.memory.len() == crate::MEMORY_SIZE
        &&& self.regs.len() == crate::REGISTER_COUNT
        &&& self.stack.len() == crate::STACK_SIZE
        &&& self.keypad.len() == crate::KEYPAD_SIZE
        &&& self.video.len() == crate::VIDEO_WIDTH * crate::VIDEO_HEIGHT
        &&& self.sp <= crate::STACK_SIZE
    }

    /// The machine as it stands when first created: all-zero state except
    /// for the program counter, which starts at `START_ADDRESS`.
    pub open spec fn initial() -> MachineView {
        MachineView {
            memory: Seq::new(crate::MEMORY_SIZE as nat, |a: int| 0u8),
            regs: Seq::new(crate::REGISTER_COUNT as nat, |x: int| 0u8),
            index: 0u16,
            pc: crate::START_ADDRESS as u16,
            stack: Seq::new(crate::STACK_SIZE as nat, |s: int| 0u16),
            sp: 0u8,
            delay: 0u8,
            sound: 0u8,
            keypad: Seq::new(crate::KEYPAD_SIZE as nat, |k: int| false),
            video: Seq::new((crate::VIDEO_WIDTH * crate::VIDEO_HEIGHT) as nat, |p: int| false),
        }
    }
}

/// The lowest index at or after `j` of a pressed key, or `KEYPAD_SIZE`
/// if none is pressed there or after.
pub open spec fn first_pressed(keypad: Seq<bool>, j: int) -> int
    decreases crate::KEYPAD_SIZE - j,
{
    if j < 0 || j >= crate::KEYPAD_SIZE {
        crate::KEYPAD_SIZE as int
    } else if keypad[j] {
        j
    } else {
        first_pressed(keypad, j + 1)
    }
}

/// `first_pressed` is `k` exactly when no key in `[i, k)` is pressed and
/// key `k` is (or `k` is `KEYPAD_SIZE` and none at all is).
pub proof fn lemma_first_pressed_from(keypad: Seq<bool>, i: int, k: int)
    requires
        0 <= i <= k <= crate::KEYPAD_SIZE,
        forall|j: int| i <= j < k ==> !keypad[j],
        k < crate::KEYPAD_SIZE ==> keypad[k],
    ensures
        first_pressed(keypad, i) == k,
    decreases k - i,
{
    if i < k {
        lemma_first_pressed_from(keypad, i + 1, k);
    }
}

} // verus!
