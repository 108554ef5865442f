//! The executable machine: one owned aggregate holding all interpreter
//! state, with the entry points the surrounding program drives — create,
//! load an image, run one cycle, tick the timers, and read or write the
//! framebuffer, keypad and memory at the boundary.
//!
//! Every state the machine can reach through this interface satisfies
//! `MachineView::wf`: the constructor establishes it and every method
//! preserves it.

use vstd::prelude::*;
use vstd::pervasive::VecAdditionalExecFns;

use crate::decode::Instruction;
use crate::decode::decode;
use crate::model::MachineView;
use crate::model::first_pressed;
use crate::model::lemma_first_pressed_from;
use crate::sem::CycleEvent;
use crate::sem::Fault;
use crate::sem::cell_index;
use crate::sem::collision_before;
use crate::sem::covers_before;
use crate::sem::cycle_post;
use crate::sem::draw_collision;
use crate::sem::draw_video;
use crate::sem::fetch_ok;
use crate::sem::fetched_op;
use crate::sem::lemma_cell_bounds;
use crate::sem::lemma_collision_none;
use crate::sem::lemma_collision_row;
use crate::sem::lemma_collision_step;
use crate::sem::lemma_covers_none;
use crate::sem::lemma_covers_row;
use crate::sem::lemma_covers_step;
use crate::sem::lemma_fresh_cell;
use crate::sem::sprite_bit;
use crate::sem::step;

verus! {

/// Relies on rand::random: draws one uniformly distributed random byte
/// from the thread-local generator. Nothing is promised of the value.
#[verifier::external_body]
fn random_byte() -> u8 {
    rand::random::<u8>()
}

/// Whether bit `bit` (0 = leftmost pixel) of a sprite row byte is set.
fn sprite_pixel_on(sprite: u8, bit: usize) -> (r: bool)
    requires
        bit < 8,
    ensures
        r == sprite_bit(sprite, bit as int),
{
    let weight: u8 = if bit == 0 {
        128
    } else if bit == 1 {
        64
    } else if bit == 2 {
        32
    } else if bit == 3 {
        16
    } else if bit == 4 {
        8
    } else if bit == 5 {
        4
    } else if bit == 6 {
        2
    } else {
        1
    };
    (sprite / weight) % 2 == 1
}

/// Error returned by the image-loading entry point.
#[derive(Clone, Copy, PartialEq, Eq, Structural, Debug)]
pub enum LoadError {
    /// The image would run past the top of addressable memory.
    ImageTooLarge,
}

/// Memory contents after an image is copied in verbatim at
/// `START_ADDRESS`: bytes under the image are replaced, all others kept.
pub open spec fn loaded_memory(mem: Seq<u8>, image: Seq<u8>) -> Seq<u8> {
    mem.map(
        |a: int, b: u8|
            if crate::START_ADDRESS <= a < crate::START_ADDRESS + image.len() {
                image[a - crate::START_ADDRESS]
            } else {
                b
            },
    )
}

/// The interpreter core: all machine state, exclusively owned.
pub struct Chip8 {
    memory: Vec<u8>,
    regs: Vec<u8>,
    index: u16,
    pc: u16,
    stack: Vec<u16>,
    sp: u8,
    delay_timer: u8,
    sound_timer: u8,
    keypad: Vec<bool>,
    video: Vec<bool>,
}

impl View for Chip8 {
    type V = MachineView;

    closed spec fn view(&self) -> MachineView {
        MachineView {
            memory: self.memory@,
            regs: self.regs@,
            index: self.index,
            pc: self.pc,
            stack: self.stack@,
            sp: self.sp,
            delay: self.delay_timer,
            sound: self.sound_timer,
            keypad: self.keypad@,
            video: self.video@,
        }
    }
}

/// A vector of `n` copies of `value`.
fn filled<T: Copy>(n: usize, value: T) -> (r: Vec<T>)
    ensures
        r@ == Seq::new(n as nat, |i: int| value),
{
    let mut r: Vec<T> = Vec::new();
    let mut j: usize = 0;
    while j < n
        invariant
            j <= n,
            r@ =~= Seq::new(j as nat, |i: int| value),
        decreases n - j,
    {
        r.push(value);
        j = j + 1;
    }
    proof {
        assert(r@ =~= Seq::new(n as nat, |i: int| value));
    }
    r
}

impl Chip8 {
    /// Creates the machine in its initial state: everything zero except
    /// the program counter, which starts at `START_ADDRESS`.
    pub fn new() -> (r: Chip8)
        ensures
            r@ == MachineView::initial(),
            r@.wf(),
    {
        let r = Chip8 {
            memory: filled(crate::MEMORY_SIZE, 0u8),
            regs: filled(crate::REGISTER_COUNT, 0u8),
            index: 0,
            pc: crate::START_ADDRESS as u16,
            stack: filled(crate::STACK_SIZE, 0u16),
            sp: 0,
            delay_timer: 0,
            sound_timer: 0,
            keypad: filled(crate::KEYPAD_SIZE, false),
            video: filled(crate::VIDEO_WIDTH * crate::VIDEO_HEIGHT, false),
        };
        proof {
            assert(r@ =~= MachineView::initial());
        }
        r
    }

    /// Copies `image` verbatim into memory starting at `START_ADDRESS`,
    /// or rejects it, changing nothing, when it would overflow memory.
    pub fn load_image(&mut self, image: &Vec<u8>) -> (r: Result<(), LoadError>)
        requires
            old(self)@.wf(),
        ensures
            final(self)@.wf(),
            image@.len() <= crate::MEMORY_SIZE - crate::START_ADDRESS ==> r == Ok::<(), LoadError>(())
                && final(self)@ == (MachineView {
                memory: loaded_memory(old(self)@.memory, image@),
                ..old(self)@
            }),
            image@.len() > crate::MEMORY_SIZE - crate::START_ADDRESS ==> r == Err::<(), LoadError>(
                LoadError::ImageTooLarge,
            ) && final(self)@ == old(self)@,
    {
        if image.len() > crate::MEMORY_SIZE - crate::START_ADDRESS {
            return Err(LoadError::ImageTooLarge);
        }
        let ghost pre_mem = self.memory@;
        let mut j: usize = 0;
        while j < image.len()
            invariant
                j <= image@.len(),
                image@.len() <= crate::MEMORY_SIZE - crate::START_ADDRESS,
                self.memory@.len() == pre_mem.len() == crate::MEMORY_SIZE,
                forall|a: int|
                    0 <= a < crate::MEMORY_SIZE ==> self.memory@[a] == (
                    if crate::START_ADDRESS <= a < crate::START_ADDRESS + j {
                        image@[a - crate::START_ADDRESS]
                    } else {
                        pre_mem[a]
                    }),
                self.regs@ == old(self)@.regs,
                self.index == old(self)@.index,
                self.pc == old(self)@.pc,
                self.stack@ == old(self)@.stack,
                self.sp == old(self)@.sp,
                self.delay_timer == old(self)@.delay,
                self.sound_timer == old(self)@.sound,
                self.keypad@ == old(self)@.keypad,
                self.video@ == old(self)@.video,
                pre_mem == old(self)@.memory,
                old(self)@.wf(),
            decreases image@.len() - j,
        {
            self.memory.set(crate::START_ADDRESS + j, image[j]);
            j = j + 1;
        }
        proof {
            assert(self@ =~= (MachineView {
                memory: loaded_memory(old(self)@.memory, image@),
                ..old(self)@
            }));
        }
        Ok(())
    }

    /// Reads the memory byte at `addr`.
    pub fn read_byte(&self, addr: usize) -> (r: u8)
        requires
            self@.wf(),
            addr < crate::MEMORY_SIZE,
        ensures
            r == self@.memory[addr as int],
    {
        self.memory[addr]
    }

    /// Writes `value` to the memory byte at `addr`.
    pub fn write_byte(&mut self, addr: usize, value: u8)
        requires
            old(self)@.wf(),
            addr < crate::MEMORY_SIZE,
        ensures
            final(self)@.wf(),
            final(self)@ == (MachineView {
                memory: old(self)@.memory.update(addr as int, value),
                ..old(self)@
            }),
    {
        self.memory.set(addr, value);
        proof {
            assert(self@ =~= (MachineView {
                memory: old(self)@.memory.update(addr as int, value),
                ..old(self)@
            }));
        }
    }

    /// Decrements both countdown timers, floored at zero. Returns whether
    /// the audible tone is active for this tick: true exactly when the
    /// sound timer was nonzero as the tick began.
    pub fn tick_timers(&mut self) -> (beep: bool)
        ensures
            final(self)@ == (MachineView {
                delay: if old(self)@.delay > 0 {
                    (old(self)@.delay - 1) as u8
                } else {
                    0u8
                },
                sound: if old(self)@.sound > 0 {
                    (old(self)@.sound - 1) as u8
                } else {
                    0u8
                },
                ..old(self)@
            }),
            beep == (old(self)@.sound > 0),
    {
        if self.delay_timer > 0 {
            self.delay_timer = self.delay_timer - 1;
        }
        let beep = self.sound_timer > 0;
        if beep {
            self.sound_timer = self.sound_timer - 1;
        }
        proof {
            assert(self@ =~= (MachineView {
                delay: if old(self)@.delay > 0 {
                    (old(self)@.delay - 1) as u8
                } else {
                    0u8
                },
                sound: if old(self)@.sound > 0 {
                    (old(self)@.sound - 1) as u8
                } else {
                    0u8
                },
                ..old(self)@
            }));
        }
        beep
    }

    /// Sets the pressed state of one keypad slot.
    pub fn set_key(&mut self, key: usize, pressed: bool)
        requires
            old(self)@.wf(),
            key < crate::KEYPAD_SIZE,
        ensures
            final(self)@.wf(),
            final(self)@ == (MachineView {
                keypad: old(self)@.keypad.update(key as int, pressed),
                ..old(self)@
            }),
    {
        self.keypad.set(key, pressed);
        proof {
            assert(self@ =~= (MachineView {
                keypad: old(self)@.keypad.update(key as int, pressed),
                ..old(self)@
            }));
        }
    }

    /// Reads the pressed state of one keypad slot.
    pub fn key(&self, key: usize) -> (r: bool)
        requires
            self@.wf(),
            key < crate::KEYPAD_SIZE,
        ensures
            r == self@.keypad[key as int],
    {
        self.keypad[key]
    }

    /// Releases every key, as the input collaborator does once per frame.
    pub fn clear_keys(&mut self)
        requires
            old(self)@.wf(),
        ensures
            final(self)@.wf(),
            final(self)@ == (MachineView {
                keypad: Seq::new(crate::KEYPAD_SIZE as nat, |k: int| false),
                ..old(self)@
            }),
    {
        let mut k: usize = 0;
        while k < crate::KEYPAD_SIZE
            invariant
                k <= crate::KEYPAD_SIZE,
                self.keypad@.len() == crate::KEYPAD_SIZE,
                forall|j: int|
                    0 <= j < crate::KEYPAD_SIZE ==> self.keypad@[j] == (
                    if j < k {
                        false
                    } else {
                        old(self)@.keypad[j]
                    }),
                self.memory@ == old(self)@.memory,
                self.regs@ == old(self)@.regs,
                self.index == old(self)@.index,
                self.pc == old(self)@.pc,
                self.stack@ == old(self)@.stack,
                self.sp == old(self)@.sp,
                self.delay_timer == old(self)@.delay,
                self.sound_timer == old(self)@.sound,
                self.video@ == old(self)@.video,
                old(self)@.wf(),
            decreases crate::KEYPAD_SIZE - k,
        {
            self.keypad.set(k, false);
            k = k + 1;
        }
        proof {
            assert(self@ =~= (MachineView {
                keypad: Seq::new(crate::KEYPAD_SIZE as nat, |k: int| false),
                ..old(self)@
            }));
        }
    }

    /// Reads one framebuffer cell; `true` means the pixel is lit.
    pub fn pixel(&self, x: usize, y: usize) -> (r: bool)
        requires
            self@.wf(),
            x < crate::VIDEO_WIDTH,
            y < crate::VIDEO_HEIGHT,
        ensures
            r == self@.video[y * crate::VIDEO_WIDTH + x],
    {
        self.video[y * crate::VIDEO_WIDTH + x]
    }

    /// The current program counter.
    pub fn pc(&self) -> (r: u16)
        ensures
            r == self@.pc,
    {
        self.pc
    }

    /// The current index register.
    pub fn index_register(&self) -> (r: u16)
        ensures
            r == self@.index,
    {
        self.index
    }

    /// The current value of general-purpose register `x`.
    pub fn register(&self, x: usize) -> (r: u8)
        requires
            self@.wf(),
            x < crate::REGISTER_COUNT,
        ensures
            r == self@.regs[x as int],
    {
        self.regs[x]
    }

    /// The current stack pointer: the number of return addresses held.
    pub fn stack_pointer(&self) -> (r: u8)
        ensures
            r == self@.sp,
    {
        self.sp
    }

    /// The current delay timer value.
    pub fn delay_timer(&self) -> (r: u8)
        ensures
            r == self@.delay,
    {
        self.delay_timer
    }

    /// The current sound timer value.
    pub fn sound_timer(&self) -> (r: u8)
        ensures
            r == self@.sound,
    {
        self.sound_timer
    }

    /// Loads the small built-in demonstration program: five instructions
    /// at `START_ADDRESS` (clear the screen, wait for a key, zero V0 and
    /// V1, point the index register at 0x300) and a five-byte glyph
    /// sprite at 0x300.
    pub fn load_test_instructions(&mut self)
        requires
            old(self)@.wf(),
        ensures
            final(self)@.wf(),
            final(self)@ == (MachineView {
                memory: old(self)@.memory.update(0x200, 0x00u8).update(0x201, 0xE0u8).update(
                    0x202,
                    0xF0u8,
                ).update(0x203, 0x0Au8).update(0x204, 0x60u8).update(0x205, 0x00u8).update(
                    0x206,
                    0x61u8,
                ).update(0x207, 0x00u8).update(0x208, 0xA3u8).update(0x209, 0x00u8).update(
                    0x300,
                    0xF0u8,
                ).update(0x301, 0x90u8).update(0x302, 0x90u8).update(0x303, 0x90u8).update(
                    0x304,
                    0xF0u8,
                ),
                ..old(self)@
            }),
    {
        self.memory.set(0x200, 0x00);
        self.memory.set(0x201, 0xE0);
        self.memory.set(0x202, 0xF0);
        self.memory.set(0x203, 0x0A);
        self.memory.set(0x204, 0x60);
        self.memory.set(0x205, 0x00);
        self.memory.set(0x206, 0x61);
        self.memory.set(0x207, 0x00);
        self.memory.set(0x208, 0xA3);
        self.memory.set(0x209, 0x00);
        self.memory.set(0x300, 0xF0);
        self.memory.set(0x301, 0x90);
        self.memory.set(0x302, 0x90);
        self.memory.set(0x303, 0x90);
        self.memory.set(0x304, 0xF0);
        proof {
            assert(self@ =~= (MachineView {
                memory: old(self)@.memory.update(0x200, 0x00u8).update(0x201, 0xE0u8).update(
                    0x202,
                    0xF0u8,
                ).update(0x203, 0x0Au8).update(0x204, 0x60u8).update(0x205, 0x00u8).update(
                    0x206,
                    0x61u8,
                ).update(0x207, 0x00u8).update(0x208, 0xA3u8).update(0x209, 0x00u8).update(
                    0x300,
                    0xF0u8,
                ).update(0x301, 0x90u8).update(0x302, 0x90u8).update(0x303, 0x90u8).update(
                    0x304,
                    0xF0u8,
                ),
                ..old(self)@
            }));
        }
    }

    /// The lowest-indexed pressed key, if any key is pressed.
    fn find_pressed_key(&self) -> (r: Option<u8>)
        requires
            self@.wf(),
        ensures
            match r {
                Some(v) => first_pressed(self@.keypad, 0) == v && v < crate::KEYPAD_SIZE,
                None => first_pressed(self@.keypad, 0) == crate::KEYPAD_SIZE,
            },
    {
        let mut j: usize = 0;
        while j < crate::KEYPAD_SIZE
            invariant
                self@.wf(),
                j <= crate::KEYPAD_SIZE,
                forall|t: int| 0 <= t < j ==> !self@.keypad[t],
            decreases crate::KEYPAD_SIZE - j,
        {
            if self.keypad[j] {
                proof {
                    lemma_first_pressed_from(self@.keypad, 0, j as int);
                }
                return Some(j as u8);
            }
            j = j + 1;
        }
        proof {
            lemma_first_pressed_from(self@.keypad, 0, crate::KEYPAD_SIZE as int);
        }
        None
    }

    /// Sets every framebuffer cell to unset.
    fn exec_clear(&mut self)
        requires
            old(self)@.wf(),
        ensures
            final(self)@.wf(),
            final(self)@ == (MachineView {
                video: Seq::new(old(self)@.video.len(), |p: int| false),
                ..old(self)@
            }),
    {
        let n = crate::VIDEO_WIDTH * crate::VIDEO_HEIGHT;
        let mut p: usize = 0;
        while p < n
            invariant
                p <= n,
                n == crate::VIDEO_WIDTH * crate::VIDEO_HEIGHT,
                self.video@.len() == n,
                forall|q: int|
                    0 <= q < n ==> self.video@[q] == (if q < p {
                        false
                    } else {
                        old(self)@.video[q]
                    }),
                old(self)@.wf(),
                self.memory@ == old(self)@.memory,
                self.regs@ == old(self)@.regs,
                self.index == old(self)@.index,
                self.pc == old(self)@.pc,
                self.stack@ == old(self)@.stack,
                self.sp == old(self)@.sp,
                self.delay_timer == old(self)@.delay,
                self.sound_timer == old(self)@.sound,
                self.keypad@ == old(self)@.keypad,
            decreases n - p,
        {
            self.video.set(p, false);
            p = p + 1;
        }
        proof {
            assert(self@ =~= (MachineView {
                video: Seq::new(old(self)@.video.len(), |p: int| false),
                ..old(self)@
            }));
        }
    }

    /// Stores `V0..=Vx` at `I..=I+x`; the index register is unchanged.
    fn exec_store_regs(&mut self, x: u8)
        requires
            old(self)@.wf(),
            x < 16,
            old(self)@.index + x < crate::MEMORY_SIZE,
        ensures
            final(self)@.wf(),
            final(self)@ == (MachineView {
                memory: old(self)@.memory.map(
                    |a: int, b: u8|
                        if old(self)@.index <= a <= old(self)@.index + x {
                            old(self)@.regs[a - old(self)@.index]
                        } else {
                            b
                        },
                ),
                ..old(self)@
            }),
    {
        let i = self.index as usize;
        let mut j: usize = 0;
        while j < x as usize + 1
            invariant
                j <= x as usize + 1,
                x < 16,
                i == old(self)@.index,
                i + x < crate::MEMORY_SIZE,
                self.memory@.len() == crate::MEMORY_SIZE,
                forall|a: int|
                    0 <= a < crate::MEMORY_SIZE ==> self.memory@[a] == (if i <= a < i + j {
                        old(self)@.regs[a - i]
                    } else {
                        old(self)@.memory[a]
                    }),
                old(self)@.wf(),
                self.regs@ == old(self)@.regs,
                self.index == old(self)@.index,
                self.pc == old(self)@.pc,
                self.stack@ == old(self)@.stack,
                self.sp == old(self)@.sp,
                self.delay_timer == old(self)@.delay,
                self.sound_timer == old(self)@.sound,
                self.keypad@ == old(self)@.keypad,
                self.video@ == old(self)@.video,
            decreases x as usize + 1 - j,
        {
            let value = self.regs[j];
            self.memory.set(i + j, value);
            j = j + 1;
        }
        proof {
            assert(self@ =~= (MachineView {
                memory: old(self)@.memory.map(
                    |a: int, b: u8|
                        if old(self)@.index <= a <= old(self)@.index + x {
                            old(self)@.regs[a - old(self)@.index]
                        } else {
                            b
                        },
                ),
                ..old(self)@
            }));
        }
    }

    /// Loads `V0..=Vx` from `I..=I+x`; the index register is unchanged.
    fn exec_load_regs(&mut self, x: u8)
        requires
            old(self)@.wf(),
            x < 16,
            old(self)@.index + x < crate::MEMORY_SIZE,
        ensures
            final(self)@.wf(),
            final(self)@ == (MachineView {
                regs: old(self)@.regs.map(
                    |t: int, v: u8|
                        if t <= x {
                            old(self)@.memory[old(self)@.index + t]
                        } else {
                            v
                        },
                ),
                ..old(self)@
            }),
    {
        let i = self.index as usize;
        let mut j: usize = 0;
        while j < x as usize + 1
            invariant
                j <= x as usize + 1,
                x < 16,
                i == old(self)@.index,
                i + x < crate::MEMORY_SIZE,
                self.regs@.len() == crate::REGISTER_COUNT,
                forall|t: int|
                    0 <= t < crate::REGISTER_COUNT ==> self.regs@[t] == (if t < j {
                        old(self)@.memory[i + t]
                    } else {
                        old(self)@.regs[t]
                    }),
                old(self)@.wf(),
                self.memory@ == old(self)@.memory,
                self.index == old(self)@.index,
                self.pc == old(self)@.pc,
                self.stack@ == old(self)@.stack,
                self.sp == old(self)@.sp,
                self.delay_timer == old(self)@.delay,
                self.sound_timer == old(self)@.sound,
                self.keypad@ == old(self)@.keypad,
                self.video@ == old(self)@.video,
            decreases x as usize + 1 - j,
        {
            let value = self.memory[i + j];
            self.regs.set(j, value);
            j = j + 1;
        }
        proof {
            assert(self@ =~= (MachineView {
                regs: old(self)@.regs.map(
                    |t: int, v: u8|
                        if t <= x {
                            old(self)@.memory[old(self)@.index + t]
                        } else {
                            v
                        },
                ),
                ..old(self)@
            }));
        }
    }

    /// Draws the `n`-row sprite at memory `I` at (`Vx`, `Vy`): clears the
    /// flags register, XOR-blits the sprite with both coordinates
    /// wrapping, and sets the flags register to 1 exactly when some lit
    /// cell was unset.
    fn exec_draw(&mut self, x: u8, y: u8, n: u8)
        requires
            old(self)@.wf(),
            x < 16,
            y < 16,
            n < 16,
            n > 0 ==> old(self)@.index + n <= crate::MEMORY_SIZE,
        ensures
            final(self)@.wf(),
            final(self)@ == (MachineView {
                video: draw_video(
                    old(self)@.video,
                    old(self)@.memory,
                    old(self)@.index,
                    old(self)@.regs[x as int],
                    old(self)@.regs[y as int],
                    n,
                ),
                regs: old(self)@.regs.update(
                    15,
                    if draw_collision(
                        old(self)@.video,
                        old(self)@.memory,
                        old(self)@.index,
                        old(self)@.regs[x as int],
                        old(self)@.regs[y as int],
                        n,
                    ) {
                        1u8
                    } else {
                        0u8
                    },
                ),
                ..old(self)@
            }),
    {
        let ghost pre = old(self)@;
        let x0 = self.regs[x as usize];
        let y0 = self.regs[y as usize];
        self.regs.set(crate::FLAGS_REGISTER, 0);
        proof {
            assert forall|p: int| !covers_before(pre.memory, pre.index, x0, y0, p, 0, 0) by {
                lemma_covers_none(pre.memory, pre.index, x0, y0, p);
            }
            lemma_collision_none(pre.video, pre.memory, pre.index, x0, y0);
            assert(self.regs@ =~= pre.regs.update(15, 0u8));
        }
        let mut row: usize = 0;
        while row < n as usize
            invariant
                row <= n as usize,
                n < 16,
                pre.wf(),
                x0 == pre.regs[x as int],
                y0 == pre.regs[y as int],
                n > 0 ==> pre.index + n <= crate::MEMORY_SIZE,
                self.video@.len() == pre.video.len(),
                pre.video.len() == crate::VIDEO_WIDTH * crate::VIDEO_HEIGHT,
                forall|p: int|
                    0 <= p < pre.video.len() ==> self.video@[p] == (pre.video[p] != covers_before(
                        pre.memory,
                        pre.index,
                        x0,
                        y0,
                        p,
                        row as int,
                        0,
                    )),
                self.regs@ == pre.regs.update(
                    15,
                    if collision_before(pre.video, pre.memory, pre.index, x0, y0, row as int, 0) {
                        1u8
                    } else {
                        0u8
                    },
                ),
                self.memory@ == pre.memory,
                self.index == pre.index,
                self.pc == pre.pc,
                self.stack@ == pre.stack,
                self.sp == pre.sp,
                self.delay_timer == pre.delay,
                self.sound_timer == pre.sound,
                self.keypad@ == pre.keypad,
            decreases n as usize - row,
        {
            let yc: usize = (y0 as usize + row) % crate::VIDEO_HEIGHT;
            let sprite: u8 = self.memory[self.index as usize + row];
            let mut bit: usize = 0;
            while bit < 8
                invariant
                    bit <= 8,
                    row < n as usize,
                    n < 16,
                    pre.wf(),
                    x0 == pre.regs[x as int],
                    y0 == pre.regs[y as int],
                    n > 0 ==> pre.index + n <= crate::MEMORY_SIZE,
                    yc == (y0 + row) % (crate::VIDEO_HEIGHT as int),
                    sprite == pre.memory[pre.index + row],
                    self.video@.len() == pre.video.len(),
                    pre.video.len() == crate::VIDEO_WIDTH * crate::VIDEO_HEIGHT,
                    forall|p: int|
                        0 <= p < pre.video.len() ==> self.video@[p] == (pre.video[p]
                            != covers_before(
                            pre.memory,
                            pre.index,
                            x0,
                            y0,
                            p,
                            row as int,
                            bit as int,
                        )),
                    self.regs@ == pre.regs.update(
                        15,
                        if collision_before(
                            pre.video,
                            pre.memory,
                            pre.index,
                            x0,
                            y0,
                            row as int,
                            bit as int,
                        ) {
                            1u8
                        } else {
                            0u8
                        },
                    ),
                    self.memory@ == pre.memory,
                    self.index == pre.index,
                    self.pc == pre.pc,
                    self.stack@ == pre.stack,
                    self.sp == pre.sp,
                    self.delay_timer == pre.delay,
                    self.sound_timer == pre.sound,
                    self.keypad@ == pre.keypad,
                decreases 8 - bit,
            {
                let xc: usize = (x0 as usize + bit) % crate::VIDEO_WIDTH;
                let idx: usize = yc * crate::VIDEO_WIDTH + xc;
                proof {
                    lemma_cell_bounds(x0, y0, row as int, bit as int);
                    assert(idx == cell_index(x0, y0, row as int, bit as int));
                    lemma_fresh_cell(pre.memory, pre.index, x0, y0, row as int, bit as int);
                }
                let on = sprite_pixel_on(sprite, bit);
                if on {
                    let cur = self.video[idx];
                    self.video.set(idx, !cur);
                    if cur {
                        self.regs.set(crate::FLAGS_REGISTER, 1);
                        proof {
                            assert(self.regs@ =~= pre.regs.update(15, 1u8));
                        }
                    }
                }
                proof {
                    lemma_collision_step(
                        pre.video,
                        pre.memory,
                        pre.index,
                        x0,
                        y0,
                        row as int,
                        bit as int,
                    );
                    assert forall|p: int| 0 <= p < pre.video.len() implies self.video@[p] == (
                    pre.video[p] != covers_before(
                        pre.memory,
                        pre.index,
                        x0,
                        y0,
                        p,
                        row as int,
                        bit as int + 1,
                    )) by {
                        lemma_covers_step(pre.memory, pre.index, x0, y0, p, row as int, bit as int);
                    }
                }
                bit = bit + 1;
            }
            proof {
                lemma_collision_row(pre.video, pre.memory, pre.index, x0, y0, row as int);
                assert forall|p: int| 0 <= p < pre.video.len() implies self.video@[p] == (
                pre.video[p] != covers_before(
                    pre.memory,
                    pre.index,
                    x0,
                    y0,
                    p,
                    row as int + 1,
                    0,
                )) by {
                    lemma_covers_row(pre.memory, pre.index, x0, y0, p, row as int);
                }
            }
            row = row + 1;
        }
        proof {
            assert(self.video@ =~= draw_video(
                pre.video,
                pre.memory,
                pre.index,
                x0,
                y0,
                n,
            ));
            assert(self@ =~= (MachineView {
                video: draw_video(pre.video, pre.memory, pre.index, x0, y0, n),
                regs: pre.regs.update(
                    15,
                    if draw_collision(pre.video, pre.memory, pre.index, x0, y0, n) {
                        1u8
                    } else {
                        0u8
                    },
                ),
                ..pre
            }));
        }
    }

    /// Executes one decoded instruction against the current state, with
    /// `rnd` standing in for the byte the random source supplied: exactly
    /// the transition `step` describes. A fatal fault leaves the machine
    /// untouched.
    pub fn execute(&mut self, instr: Instruction, rnd: u8) -> (r: Result<CycleEvent, Fault>)
        requires
            old(self)@.wf(),
            instr.wf(),
            old(self)@.pc + 4 <= u16::MAX,
        ensures
            final(self)@.wf(),
            ({
                let pre = old(self)@;
                match step(pre, instr, rnd) {
                    Ok((m, ev)) => final(self)@ == m && r == Ok::<CycleEvent, Fault>(ev),
                    Err(f) => final(self)@ == pre && r == Err::<CycleEvent, Fault>(f),
                }
            }),
    {
        match instr {
            Instruction::Clear => {
                self.exec_clear();
                self.pc = self.pc + 2;
                Ok(CycleEvent::Normal)
            },
            Instruction::Ret => {
                if self.sp == 0 {
                    Ok(CycleEvent::StackUnderflow)
                } else {
                    self.sp = self.sp - 1;
                    self.pc = self.stack[self.sp as usize];
                    Ok(CycleEvent::Normal)
                }
            },
            Instruction::Jump { nnn } => {
                self.pc = nnn;
                Ok(CycleEvent::Normal)
            },
            Instruction::Call { nnn } => {
                if self.sp as usize >= crate::STACK_SIZE {
                    self.pc = self.pc + 2;
                    Ok(CycleEvent::StackOverflow)
                } else {
                    let ret = self.pc + 2;
                    self.stack.set(self.sp as usize, ret);
                    self.sp = self.sp + 1;
                    self.pc = nnn;
                    Ok(CycleEvent::Normal)
                }
            },
            Instruction::SkipEqImm { x, kk } => {
                let hop: u16 = if self.regs[x as usize] == kk {
                    4
                } else {
                    2
                };
                self.pc = self.pc + hop;
                Ok(CycleEvent::Normal)
            },
            Instruction::SkipNeImm { x, kk } => {
                let hop: u16 = if self.regs[x as usize] != kk {
                    4
                } else {
                    2
                };
                self.pc = self.pc + hop;
                Ok(CycleEvent::Normal)
            },
            Instruction::SkipEqReg { x, y } => {
                let hop: u16 = if self.regs[x as usize] == self.regs[y as usize] {
                    4
                } else {
                    2
                };
                self.pc = self.pc + hop;
                Ok(CycleEvent::Normal)
            },
            Instruction::SkipNeReg { x, y } => {
                let hop: u16 = if self.regs[x as usize] != self.regs[y as usize] {
                    4
                } else {
                    2
                };
                self.pc = self.pc + hop;
                Ok(CycleEvent::Normal)
            },
            Instruction::SetImm { x, kk } => {
                self.regs.set(x as usize, kk);
                self.pc = self.pc + 2;
                Ok(CycleEvent::Normal)
            },
            Instruction::AddImm { x, kk } => {
                let sum: u16 = self.regs[x as usize] as u16 + kk as u16;
                self.regs.set(x as usize, (sum % 256) as u8);
                self.pc = self.pc + 2;
                Ok(CycleEvent::Normal)
            },
            Instruction::CopyReg { x, y } => {
                let vy = self.regs[y as usize];
                self.regs.set(x as usize, vy);
                self.pc = self.pc + 2;
                Ok(CycleEvent::Normal)
            },
            Instruction::OrReg { x, y } => {
                let vx = self.regs[x as usize];
                let vy = self.regs[y as usize];
                self.regs.set(x as usize, vx | vy);
                self.pc = self.pc + 2;
                Ok(CycleEvent::Normal)
            },
            Instruction::AndReg { x, y } => {
                let vx = self.regs[x as usize];
                let vy = self.regs[y as usize];
                self.regs.set(x as usize, vx & vy);
                self.pc = self.pc + 2;
                Ok(CycleEvent::Normal)
            },
            Instruction::XorReg { x, y } => {
                let vx = self.regs[x as usize];
                let vy = self.regs[y as usize];
                self.regs.set(x as usize, vx ^ vy);
                self.pc = self.pc + 2;
                Ok(CycleEvent::Normal)
            },
            Instruction::AddReg { x, y } => {
                let vx = self.regs[x as usize];
                let vy = self.regs[y as usize];
                let sum: u16 = vx as u16 + vy as u16;
                let carry: u8 = if sum > 255 {
                    1
                } else {
                    0
                };
                self.regs.set(x as usize, (sum % 256) as u8);
                self.regs.set(crate::FLAGS_REGISTER, carry);
                self.pc = self.pc + 2;
                Ok(CycleEvent::Normal)
            },
            Instruction::SubReg { x, y } => {
                let vx = self.regs[x as usize];
                let vy = self.regs[y as usize];
                let no_borrow: u8 = if vx >= vy {
                    1
                } else {
                    0
                };
                let diff: u16 = vx as u16 + 256 - vy as u16;
                self.regs.set(x as usize, (diff % 256) as u8);
                self.regs.set(crate::FLAGS_REGISTER, no_borrow);
                self.pc = self.pc + 2;
                Ok(CycleEvent::Normal)
            },
            Instruction::ShrReg { x } => {
                let vx = self.regs[x as usize];
                self.regs.set(crate::FLAGS_REGISTER, vx & 1);
                let cur = self.regs[x as usize];
                self.regs.set(x as usize, cur / 2);
                self.pc = self.pc + 2;
                Ok(CycleEvent::Normal)
            },
            Instruction::SubnReg { x, y } => {
                let vx = self.regs[x as usize];
                let vy = self.regs[y as usize];
                let no_borrow: u8 = if vy >= vx {
                    1
                } else {
                    0
                };
                let diff: u16 = vy as u16 + 256 - vx as u16;
                self.regs.set(x as usize, (diff % 256) as u8);
                self.regs.set(crate::FLAGS_REGISTER, no_borrow);
                self.pc = self.pc + 2;
                Ok(CycleEvent::Normal)
            },
            Instruction::ShlReg { x } => {
                let vx = self.regs[x as usize];
                self.regs.set(crate::FLAGS_REGISTER, (vx & 0x08) / 128);
                let cur = self.regs[x as usize];
                let doubled: u16 = cur as u16 * 2;
                self.regs.set(x as usize, (doubled % 256) as u8);
                self.pc = self.pc + 2;
                Ok(CycleEvent::Normal)
            },
            Instruction::SetIndex { nnn } => {
                self.index = nnn;
                self.pc = self.pc + 2;
                Ok(CycleEvent::Normal)
            },
            Instruction::AddIndex { x } => {
                let sum: u32 = self.index as u32 + self.regs[x as usize] as u32;
                self.index = (sum % 0x10000) as u16;
                self.pc = self.pc + 2;
                Ok(CycleEvent::Normal)
            },
            Instruction::Random { x, kk } => {
                self.regs.set(x as usize, rnd & kk);
                self.pc = self.pc + 2;
                Ok(CycleEvent::Normal)
            },
            Instruction::Draw { x, y, n } => {
                if n > 0 && self.index as usize + n as usize > crate::MEMORY_SIZE {
                    return Err(Fault::MemoryOutOfBounds);
                }
                self.exec_draw(x, y, n);
                self.pc = self.pc + 2;
                Ok(CycleEvent::Normal)
            },
            Instruction::SkipKey { x } => {
                let key = self.regs[x as usize];
                if key as usize >= crate::KEYPAD_SIZE {
                    return Err(Fault::KeyOutOfRange);
                }
                let hop: u16 = if self.keypad[key as usize] {
                    4
                } else {
                    2
                };
                self.pc = self.pc + hop;
                Ok(CycleEvent::Normal)
            },
            Instruction::SkipNoKey { x } => {
                let key = self.regs[x as usize];
                if key as usize >= crate::KEYPAD_SIZE {
                    return Err(Fault::KeyOutOfRange);
                }
                let hop: u16 = if !self.keypad[key as usize] {
                    4
                } else {
                    2
                };
                self.pc = self.pc + hop;
                Ok(CycleEvent::Normal)
            },
            Instruction::WaitKey { x } => {
                match self.find_pressed_key() {
                    Some(v) => {
                        self.regs.set(x as usize, v);
                        self.pc = self.pc + 2;
                    },
                    None => {},
                }
                Ok(CycleEvent::Normal)
            },
            Instruction::ReadDelay { x } => {
                let value = self.delay_timer;
                self.regs.set(x as usize, value);
                self.pc = self.pc + 2;
                Ok(CycleEvent::Normal)
            },
            Instruction::SetDelay { x } => {
                self.delay_timer = self.regs[x as usize];
                self.pc = self.pc + 2;
                Ok(CycleEvent::Normal)
            },
            Instruction::SetSound { x } => {
                self.sound_timer = self.regs[x as usize];
                self.pc = self.pc + 2;
                Ok(CycleEvent::Normal)
            },
            Instruction::FontIndex { x } => {
                self.index = self.regs[x as usize] as u16 * 5;
                self.pc = self.pc + 2;
                Ok(CycleEvent::Normal)
            },
            Instruction::StoreBcd { x } => {
                if self.index as usize + 2 >= crate::MEMORY_SIZE {
                    return Err(Fault::MemoryOutOfBounds);
                }
                let i = self.index as usize;
                let vx = self.regs[x as usize];
                self.memory.set(i, vx / 100);
                self.memory.set(i + 1, (vx % 100) / 10);
                self.memory.set(i + 2, vx % 10);
                self.pc = self.pc + 2;
                Ok(CycleEvent::Normal)
            },
            Instruction::StoreRegs { x } => {
                if self.index as usize + x as usize >= crate::MEMORY_SIZE {
                    return Err(Fault::MemoryOutOfBounds);
                }
                self.exec_store_regs(x);
                self.pc = self.pc + 2;
                Ok(CycleEvent::Normal)
            },
            Instruction::LoadRegs { x } => {
                if self.index as usize + x as usize >= crate::MEMORY_SIZE {
                    return Err(Fault::MemoryOutOfBounds);
                }
                self.exec_load_regs(x);
                self.pc = self.pc + 2;
                Ok(CycleEvent::Normal)
            },
            Instruction::Unknown => {
                self.pc = self.pc + 2;
                Ok(CycleEvent::UnknownOpcode)
            },
        }
    }

    /// Runs exactly one instruction cycle: fetches the two instruction
    /// bytes at the program counter, decodes them, and executes the
    /// instruction; the `Random` instruction draws its byte from the
    /// process's random source. A fetch outside memory is a fatal fault
    /// that leaves the machine untouched.
    pub fn cycle(&mut self) -> (r: Result<CycleEvent, Fault>)
        requires
            old(self)@.wf(),
        ensures
            final(self)@.wf(),
            !fetch_ok(old(self)@) ==> r == Err::<CycleEvent, Fault>(Fault::MemoryOutOfBounds)
                && final(self)@ == old(self)@,
            fetch_ok(old(self)@) ==> exists|rnd: u8| cycle_post(old(self)@, final(self)@, r, rnd),
    {
        let pcu = self.pc as usize;
        if pcu + 1 >= crate::MEMORY_SIZE {
            return Err(Fault::MemoryOutOfBounds);
        }
        let high = self.memory[pcu];
        let low = self.memory[pcu + 1];
        let op: u16 = (high as u16) * 256 + (low as u16);
        proof {
            assert(op == fetched_op(old(self)@));
        }
        let instr = decode(op);
        let rnd: u8 = match instr {
            Instruction::Random { .. } => random_byte(),
            _ => 0,
        };
        let r = self.execute(instr, rnd);
        proof {
            assert(cycle_post(old(self)@, self@, r, rnd));
        }
        r
    }
}

} // verus!
