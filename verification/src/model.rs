//! The mathematical model of the machine: a ghost record of the whole
//! machine state, and spec functions giving the exact effect of every
//! instruction. The executable core in [`crate::emulator`] is proved to
//! follow [`step_spec`] on every cycle.

use vstd::prelude::*;
use crate::font::font_seq;
use crate::display::blank_screen;

verus! {

/// The complete machine state, as mathematical values.
#[verifier::ext_equal]
pub ghost struct EmuModel {
    /// Program counter.
    pub pc: u16,
    /// The 4096 memory bytes.
    pub ram: Seq<u8>,
    /// The 2048 framebuffer pixels, row-major.
    pub screen: Seq<bool>,
    /// The 16 general-purpose registers `V0`..`VF`.
    pub regs: Seq<u8>,
    /// The 16-bit index register.
    pub idx: u16,
    /// The 16 call-stack slots.
    pub stack: Seq<u16>,
    /// The stack pointer: number of live return addresses.
    pub sp: u16,
    /// Delay timer.
    pub delay: u8,
    /// Sound timer.
    pub sound: u8,
    /// The 16 button states of the input latch.
    pub keys: Seq<bool>,
}

/// Every component has its fixed size and the stack pointer is within
/// capacity.
pub open spec fn wf_model(m: EmuModel) -> bool {
    &&& m.ram.len() == crate::RAM_SIZE
    &&& m.screen.len() == crate::SCREEN_SIZE
    &&& m.regs.len() == crate::NUM_REGISTERS
    &&& m.stack.len() == crate::STACK_SIZE
    &&& m.keys.len() == crate::KEYPAD_SIZE
    &&& m.sp <= crate::STACK_SIZE
}

/// The faults that stop a run. Every one is host-fatal: the machine state
/// is left exactly as it was before the faulting cycle so the host can
/// report the instruction that failed.
#[derive(Clone, Copy, Debug, PartialEq, Eq, Structural)]
pub enum VmError {
    /// The program counter does not address two bytes of memory.
    FetchOutOfBounds { pc: u16 },
    /// The instruction word matches no assigned encoding.
    UnknownOpcode { opcode: u16 },
    /// A memory-indexed instruction reaches past the end of memory;
    /// `addr` is the index-register base it started from.
    MemoryOutOfBounds { opcode: u16, addr: u16 },
    /// A subroutine call with all 16 stack slots in use.
    StackOverflow { opcode: u16 },
    /// A subroutine return with no saved address on the stack.
    StackUnderflow { opcode: u16 },
    /// A key-skip instruction naming a button index above 0xF.
    KeyOutOfRange { opcode: u16, key: u8 },
}

/// Memory at power-on: the font table at the bottom, zeroes elsewhere.
pub open spec fn initial_ram() -> Seq<u8> {
    Seq::new(crate::RAM_SIZE as nat, |i: int| if i < (crate::FONT_SIZE as int) {
        font_seq()[i]
    } else {
        0u8
    })
}

/// The machine as constructed: everything zeroed, font preloaded, and the
/// program counter at the program start address.
pub open spec fn initial_model() -> EmuModel {
    EmuModel {
        pc: crate::START_ADDRESS,
        ram: initial_ram(),
        screen: blank_screen(),
        regs: Seq::new(crate::NUM_REGISTERS as nat, |i: int| 0u8),
        idx: 0,
        stack: Seq::new(crate::STACK_SIZE as nat, |i: int| 0u16),
        sp: 0,
        delay: 0,
        sound: 0,
        keys: Seq::new(crate::KEYPAD_SIZE as nat, |i: int| false),
    }
}

/// Top nibble of an instruction word: the operation class.
pub open spec fn nib_hi(op: u16) -> u16 {
    (op & 0xF000) >> 12
}

/// Second nibble: the register index `x`.
pub open spec fn nib_x(op: u16) -> u16 {
    (op & 0x0F00) >> 8
}

/// Third nibble: the register index `y`.
pub open spec fn nib_y(op: u16) -> u16 {
    (op & 0x00F0) >> 4
}

/// Low nibble: the sub-operation or row count `n`.
pub open spec fn nib_n(op: u16) -> u16 {
    op & 0x000F
}

/// Low byte: the immediate `nn`.
pub open spec fn imm_nn(op: u16) -> u8 {
    (op & 0xFF) as u8
}

/// Low 12 bits: the immediate address `nnn`.
pub open spec fn imm_nnn(op: u16) -> u16 {
    op & 0xFFF
}

/// The nibbles and immediates of an instruction word lie in their ranges.
pub proof fn lemma_op_fields(op: u16)
    ensures
        nib_hi(op) < 16,
        nib_x(op) < 16,
        nib_y(op) < 16,
        nib_n(op) < 16,
        (op & 0xFF) < 256,
        imm_nnn(op) < 4096,
{
    assert(((op & 0xF000) >> 12) < 16 && ((op & 0x0F00) >> 8) < 16 && ((op & 0x00F0) >> 4) < 16
        && (op & 0x000F) < 16 && (op & 0xFF) < 256 && (op & 0xFFF) < 4096) by (bit_vector);
}

/// A timer value after one tick: down by one, floored at zero.
pub open spec fn tick_down(t: u8) -> u8 {
    if t > 0 {
        (t - 1) as u8
    } else {
        0
    }
}

/// The smallest pressed button index at or above `i`, or 16 if none is
/// pressed from `i` up.
pub open spec fn first_key_from(keys: Seq<bool>, i: int) -> int
    decreases 16 - i,
{
    if i < 0 || i >= 16 {
        16
    } else if keys[i] {
        i
    } else {
        first_key_from(keys, i + 1)
    }
}

/// With no button pressed at or above `i`, the scan reports 16.
pub proof fn lemma_first_key_none(keys: Seq<bool>, i: int)
    requires
        forall|j: int| i <= j < 16 ==> !keys[j],
    ensures
        first_key_from(keys, i) == 16,
    decreases 16 - i,
{
    if 0 <= i < 16 {
        lemma_first_key_none(keys, i + 1);
    }
}

/// With some button pressed at or above `i`, the scan reports the smallest
/// pressed index.
pub proof fn lemma_first_key_some(keys: Seq<bool>, i: int)
    requires
        0 <= i <= 16,
        exists|j: int| i <= j < 16 && keys[j],
    ensures
        i <= first_key_from(keys, i) < 16,
        keys[first_key_from(keys, i)],
        forall|j: int| i <= j < first_key_from(keys, i) ==> !keys[j],
    decreases 16 - i,
{
    if i < 16 && !keys[i] {
        assert(exists|j: int| i + 1 <= j < 16 && keys[j]) by {
            let j0 = choose|j: int| i <= j < 16 && keys[j];
            assert(i + 1 <= j0 < 16 && keys[j0]);
        }
        lemma_first_key_some(keys, i + 1);
    }
}

/// Memory after the block store: registers `0..count` written at
/// `idx..idx + count`, the rest untouched.
pub open spec fn stored_ram(ram: Seq<u8>, regs: Seq<u8>, idx: int, count: int) -> Seq<u8> {
    Seq::new(ram.len(), |j: int| if idx <= j < idx + count {
        regs[j - idx]
    } else {
        ram[j]
    })
}

/// Registers after the block load: `0..count` read from `idx..`, the rest
/// untouched.
pub open spec fn loaded_regs(regs: Seq<u8>, ram: Seq<u8>, idx: int, count: int) -> Seq<u8> {
    Seq::new(regs.len(), |j: int| if 0 <= j < count {
        ram[idx + j]
    } else {
        regs[j]
    })
}

/// The screen and collision flag after the first `c` columns of one sprite
/// row have been drawn. Column `cc` of a row byte is its bit
/// `0x80 >> cc` (most significant first); a set bit toggles the pixel at
/// wrapped column `(cx + cc) % SCREEN_WIDTH` of screen row `py`, and the
/// collision flag records whether any toggled pixel was lit beforehand.
pub open spec fn draw_row_pref(s0: Seq<bool>, byte: u8, cx: u8, py: int, c: int) -> (Seq<bool>, bool)
    decreases c,
{
    if c <= 0 {
        (s0, false)
    } else {
        let prev = draw_row_pref(s0, byte, cx, py, c - 1);
        let cc = c - 1;
        if byte & (0x80u8 >> (cc as u8)) != 0 {
            let px = (cx + cc) % (crate::SCREEN_WIDTH as int);
            let i = px + (crate::SCREEN_WIDTH as int) * py;
            (prev.0.update(i, !prev.0[i]), prev.1 || prev.0[i])
        } else {
            prev
        }
    }
}

/// The screen and collision flag after the first `r` rows of a sprite have
/// been drawn: row `rr` uses the byte at `ram[idx + rr]` and lands on
/// wrapped screen row `(cy + rr) % SCREEN_HEIGHT`.
pub open spec fn draw_pref(s0: Seq<bool>, ram: Seq<u8>, idx: int, cx: u8, cy: u8, r: int) -> (Seq<bool>, bool)
    decreases r,
{
    if r <= 0 {
        (s0, false)
    } else {
        let prev = draw_pref(s0, ram, idx, cx, cy, r - 1);
        let rr = r - 1;
        let row = draw_row_pref(prev.0, ram[idx + rr], cx, (cy + rr) % (crate::SCREEN_HEIGHT as int), 8);
        (row.0, prev.1 || row.1)
    }
}

/// Drawing one row leaves the screen's length unchanged.
pub proof fn lemma_draw_row_len(s0: Seq<bool>, byte: u8, cx: u8, py: int, c: int)
    requires
        0 <= py < crate::SCREEN_HEIGHT,
        s0.len() == crate::SCREEN_SIZE,
    ensures
        draw_row_pref(s0, byte, cx, py, c).0.len() == s0.len(),
    decreases c,
{
    if c > 0 {
        lemma_draw_row_len(s0, byte, cx, py, c - 1);
    }
}

/// Drawing a sprite leaves the screen's length unchanged.
pub proof fn lemma_draw_len(s0: Seq<bool>, ram: Seq<u8>, idx: int, cx: u8, cy: u8, r: int)
    requires
        s0.len() == crate::SCREEN_SIZE,
    ensures
        draw_pref(s0, ram, idx, cx, cy, r).0.len() == s0.len(),
    decreases r,
{
    if r > 0 {
        lemma_draw_len(s0, ram, idx, cx, cy, r - 1);
        lemma_draw_row_len(
            draw_pref(s0, ram, idx, cx, cy, r - 1).0,
            ram[idx + r - 1],
            cx,
            (cy + r - 1) % (crate::SCREEN_HEIGHT as int),
            8,
        );
    }
}

/// Wrapping cannot collapse nearby offsets: two offsets less than a full
/// width apart land on two different wrapped positions.
pub proof fn lemma_wrap_injective(base: int, width: int, a: int, b: int)
    requires
        width > 0,
        0 <= a < b,
        b - a < width,
    ensures
        (base + a) % width != (base + b) % width,
{
    let xa = base + a;
    let xb = base + b;
    vstd::arithmetic::div_mod::lemma_fundamental_div_mod(xa, width);
    vstd::arithmetic::div_mod::lemma_fundamental_div_mod(xb, width);
    if (xa % width) == (xb % width) {
        let d = (xb / width) - (xa / width);
        assert(xb - xa == width * d) by (nonlinear_arith)
            requires
                xa == width * (xa / width) + (xa % width),
                xb == width * (xb / width) + (xb % width),
                (xa % width) == (xb % width),
                d == (xb / width) - (xa / width),
        ;
        assert(false) by (nonlinear_arith)
            requires
                width > 0,
                0 < width * d < width,
        ;
    }
}

/// The screen index that column `k` of a sprite row lands on: the
/// wrapped column, within screen row `py`.
pub open spec fn row_hit(cx: u8, py: int, k: int) -> int {
    (cx + k) % (crate::SCREEN_WIDTH as int) + (crate::SCREEN_WIDTH as int) * py
}

/// The screen row that sprite row `rr` lands on: wrapped vertically.
pub open spec fn wrapped_row(cy: u8, rr: int) -> int {
    (cy + rr) % (crate::SCREEN_HEIGHT as int)
}

/// Whether screen index `i` lies on the screen row that sprite row `rr`
/// lands on.
pub open spec fn on_sprite_row(cy: u8, rr: int, i: int) -> bool {
    let w = crate::SCREEN_WIDTH as int;
    w * wrapped_row(cy, rr) <= i < w * wrapped_row(cy, rr) + w
}

/// Pointwise meaning of one drawn row, untouched pixels: a pixel that
/// none of the first `c` columns lands on keeps its value.
pub proof fn lemma_draw_row_frame(s0: Seq<bool>, byte: u8, cx: u8, py: int, c: int, i: int)
    requires
        s0.len() == crate::SCREEN_SIZE,
        0 <= py < crate::SCREEN_HEIGHT,
        0 <= i < crate::SCREEN_SIZE,
        forall|k: int| 0 <= k < c ==> i != row_hit(cx, py, k),
    ensures
        draw_row_pref(s0, byte, cx, py, c).0[i] == s0[i],
    decreases c,
{
    if c > 0 {
        lemma_draw_row_frame(s0, byte, cx, py, c - 1, i);
        lemma_draw_row_len(s0, byte, cx, py, c - 1);
        assert(i != row_hit(cx, py, c - 1));
    }
}

/// Pointwise meaning of one drawn row, hit pixels: the pixel of column
/// `k` — at wrapped screen column `(cx + k) % SCREEN_WIDTH` — is XORed
/// with the sprite bit for `k`, whatever the other columns do.
pub proof fn lemma_draw_row_toggle(s0: Seq<bool>, byte: u8, cx: u8, py: int, c: int, k: int)
    requires
        s0.len() == crate::SCREEN_SIZE,
        0 <= py < crate::SCREEN_HEIGHT,
        0 <= k < c <= 8,
    ensures
        ({
            let i = row_hit(cx, py, k);
            draw_row_pref(s0, byte, cx, py, c).0[i] == if byte & (0x80u8 >> (k as u8)) != 0 {
                !s0[i]
            } else {
                s0[i]
            }
        }),
    decreases c,
{
    let w = crate::SCREEN_WIDTH as int;
    let i = row_hit(cx, py, k);
    let cc = c - 1;
    lemma_draw_row_len(s0, byte, cx, py, cc);
    assert(0 <= (cx + k) % w < w);
    if k == cc {
        assert forall|k2: int| 0 <= k2 < cc implies i != row_hit(cx, py, k2) by {
            lemma_wrap_injective(cx as int, w, k2, k);
        }
        lemma_draw_row_frame(s0, byte, cx, py, cc, i);
    } else {
        lemma_draw_row_toggle(s0, byte, cx, py, cc, k);
        lemma_wrap_injective(cx as int, w, k, cc);
    }
}

/// Pointwise meaning of a drawn sprite, untouched pixels: a pixel lying
/// on none of the wrapped rows the sprite covers keeps its value.
pub proof fn lemma_draw_frame(s0: Seq<bool>, ram: Seq<u8>, idx: int, cx: u8, cy: u8, r: int, i: int)
    requires
        s0.len() == crate::SCREEN_SIZE,
        0 <= i < crate::SCREEN_SIZE,
        forall|r2: int| 0 <= r2 < r ==> !on_sprite_row(cy, r2, i),
    ensures
        draw_pref(s0, ram, idx, cx, cy, r).0[i] == s0[i],
    decreases r,
{
    let w = crate::SCREEN_WIDTH as int;
    if r > 0 {
        lemma_draw_frame(s0, ram, idx, cx, cy, r - 1, i);
        let prev = draw_pref(s0, ram, idx, cx, cy, r - 1);
        let py = wrapped_row(cy, r - 1);
        lemma_draw_len(s0, ram, idx, cx, cy, r - 1);
        assert(!on_sprite_row(cy, r - 1, i));
        assert(!(w * py <= i < w * py + w));
        assert forall|k: int| 0 <= k < 8 implies i != row_hit(cx, py, k) by {
            assert(0 <= (cx + k) % w < w);
        }
        lemma_draw_row_frame(prev.0, ram[idx + r - 1], cx, py, 8, i);
    }
}

/// Pointwise meaning of a drawn sprite, hit pixels: the pixel that row
/// `rr`, column `k` lands on — wrapped in both directions — is XORed
/// with that sprite bit. A sprite has at most 15 rows, so two rows can
/// never wrap onto the same screen row and interfere.
pub proof fn lemma_draw_toggle(s0: Seq<bool>, ram: Seq<u8>, idx: int, cx: u8, cy: u8, r: int, rr: int, k: int)
    requires
        s0.len() == crate::SCREEN_SIZE,
        0 <= rr < r <= 15,
        0 <= k < 8,
    ensures
        ({
            let i = row_hit(cx, wrapped_row(cy, rr), k);
            draw_pref(s0, ram, idx, cx, cy, r).0[i] == if ram[idx + rr] & (0x80u8 >> (k as u8)) != 0 {
                !s0[i]
            } else {
                s0[i]
            }
        }),
    decreases r,
{
    let w = crate::SCREEN_WIDTH as int;
    let h = crate::SCREEN_HEIGHT as int;
    let py = wrapped_row(cy, rr);
    let i = row_hit(cx, py, k);
    let prev = draw_pref(s0, ram, idx, cx, cy, r - 1);
    lemma_draw_len(s0, ram, idx, cx, cy, r - 1);
    assert(0 <= (cx + k) % w < w);
    if rr == r - 1 {
        assert forall|r2: int| 0 <= r2 < r - 1 implies !on_sprite_row(cy, r2, i) by {
            lemma_wrap_injective(cy as int, h, r2, rr);
        }
        lemma_draw_frame(s0, ram, idx, cx, cy, r - 1, i);
        lemma_draw_row_toggle(prev.0, ram[idx + rr], cx, py, 8, k);
    } else {
        lemma_draw_toggle(s0, ram, idx, cx, cy, r - 1, rr, k);
        let py_last = wrapped_row(cy, r - 1);
        assert forall|k2: int| 0 <= k2 < 8 implies i != row_hit(cx, py_last, k2) by {
            lemma_wrap_injective(cy as int, h, rr, r - 1);
            assert(0 <= (cx + k2) % w < w);
        }
        lemma_draw_row_frame(prev.0, ram[idx + r - 1], cx, py_last, 8, i);
    }
}

/// Whether some set bit among the first `c` columns of a row byte lands
/// on a pixel that is lit in `s0`.
pub open spec fn row_collides(s0: Seq<bool>, byte: u8, cx: u8, py: int, c: int) -> bool {
    exists|k: int| 0 <= k < c && byte & (0x80u8 >> (k as u8)) != 0 && s0[row_hit(cx, py, k)]
}

/// The collision flag of one drawn row, exactly: it is set when and only
/// when some set sprite bit lands on an already-lit pixel.
pub proof fn lemma_draw_row_collision(s0: Seq<bool>, byte: u8, cx: u8, py: int, c: int)
    requires
        s0.len() == crate::SCREEN_SIZE,
        0 <= py < crate::SCREEN_HEIGHT,
        0 <= c <= 8,
    ensures
        draw_row_pref(s0, byte, cx, py, c).1 == row_collides(s0, byte, cx, py, c),
    decreases c,
{
    let w = crate::SCREEN_WIDTH as int;
    if c > 0 {
        let cc = c - 1;
        lemma_draw_row_collision(s0, byte, cx, py, cc);
        lemma_draw_row_len(s0, byte, cx, py, cc);
        let prev = draw_row_pref(s0, byte, cx, py, cc);
        let i = row_hit(cx, py, cc);
        assert(0 <= (cx + cc) % w < w);
        assert forall|k2: int| 0 <= k2 < cc implies i != row_hit(cx, py, k2) by {
            lemma_wrap_injective(cx as int, w, k2, cc);
        }
        lemma_draw_row_frame(s0, byte, cx, py, cc, i);
        if draw_row_pref(s0, byte, cx, py, c).1 {
            if prev.1 {
                let k0 = choose|k: int| 0 <= k < cc && byte & (0x80u8 >> (k as u8)) != 0
                    && s0[row_hit(cx, py, k)];
                assert(0 <= k0 < c && byte & (0x80u8 >> (k0 as u8)) != 0
                    && s0[row_hit(cx, py, k0)]);
            } else {
                assert(byte & (0x80u8 >> (cc as u8)) != 0 && s0[i]);
                assert(0 <= cc < c && byte & (0x80u8 >> (cc as u8)) != 0
                    && s0[row_hit(cx, py, cc)]);
            }
            assert(row_collides(s0, byte, cx, py, c));
        } else {
            if row_collides(s0, byte, cx, py, c) {
                let k0 = choose|k: int| 0 <= k < c && byte & (0x80u8 >> (k as u8)) != 0
                    && s0[row_hit(cx, py, k)];
                if k0 < cc {
                    assert(row_collides(s0, byte, cx, py, cc));
                }
                assert(false);
            }
        }
    }
}

/// Whether some set bit of a sprite lands on a pixel that is lit in `s0`.
pub open spec fn sprite_collides(s0: Seq<bool>, ram: Seq<u8>, idx: int, cx: u8, cy: u8, r: int) -> bool {
    exists|r2: int, k: int| 0 <= r2 < r && 0 <= k < 8
        && ram[idx + r2] & (0x80u8 >> (k as u8)) != 0
        && s0[row_hit(cx, wrapped_row(cy, r2), k)]
}

/// Pointwise meaning of a drawn sprite, missed pixels: a pixel that no
/// row-and-column of the sprite lands on keeps its value, even when it
/// lies on a screen row the sprite crosses.
pub proof fn lemma_draw_miss(s0: Seq<bool>, ram: Seq<u8>, idx: int, cx: u8, cy: u8, r: int, i: int)
    requires
        s0.len() == crate::SCREEN_SIZE,
        0 <= i < crate::SCREEN_SIZE,
        forall|r2: int, k: int| 0 <= r2 < r && 0 <= k < 8
            ==> i != row_hit(cx, wrapped_row(cy, r2), k),
    ensures
        draw_pref(s0, ram, idx, cx, cy, r).0[i] == s0[i],
    decreases r,
{
    if r > 0 {
        lemma_draw_miss(s0, ram, idx, cx, cy, r - 1, i);
        let prev = draw_pref(s0, ram, idx, cx, cy, r - 1);
        let py = wrapped_row(cy, r - 1);
        lemma_draw_len(s0, ram, idx, cx, cy, r - 1);
        assert forall|k: int| 0 <= k < 8 implies i != row_hit(cx, py, k) by {
            assert(i != row_hit(cx, wrapped_row(cy, r - 1), k));
        }
        lemma_draw_row_frame(prev.0, ram[idx + r - 1], cx, py, 8, i);
    }
}

/// The collision flag of a drawn sprite, exactly: it is set when and
/// only when some set sprite bit lands on a pixel that was lit before
/// the draw began. A sprite's rows land on distinct screen rows, so no
/// row can collide with pixels another row of the same draw just lit.
pub proof fn lemma_draw_collision(s0: Seq<bool>, ram: Seq<u8>, idx: int, cx: u8, cy: u8, r: int)
    requires
        s0.len() == crate::SCREEN_SIZE,
        0 <= r <= 15,
    ensures
        draw_pref(s0, ram, idx, cx, cy, r).1 == sprite_collides(s0, ram, idx, cx, cy, r),
    decreases r,
{
    let w = crate::SCREEN_WIDTH as int;
    let h = crate::SCREEN_HEIGHT as int;
    if r > 0 {
        lemma_draw_collision(s0, ram, idx, cx, cy, r - 1);
        lemma_draw_len(s0, ram, idx, cx, cy, r - 1);
        let prev = draw_pref(s0, ram, idx, cx, cy, r - 1);
        let py = wrapped_row(cy, r - 1);
        let byte = ram[idx + r - 1];
        lemma_draw_row_collision(prev.0, byte, cx, py, 8);
        // the pixels of this row are untouched by the earlier rows
        assert forall|k: int| 0 <= k < 8
            implies prev.0[row_hit(cx, py, k)] == s0[row_hit(cx, py, k)] by {
            let i = row_hit(cx, py, k);
            assert(0 <= (cx + k) % w < w);
            assert forall|r2: int, k2: int| 0 <= r2 < r - 1 && 0 <= k2 < 8
                implies i != row_hit(cx, wrapped_row(cy, r2), k2) by {
                lemma_wrap_injective(cy as int, h, r2, r - 1);
                assert(0 <= (cx + k2) % w < w);
            }
            lemma_draw_miss(s0, ram, idx, cx, cy, r - 1, i);
        }
        // hence this row collides against the drawn-so-far screen exactly
        // when it collides against the screen the whole draw began with
        assert(row_collides(prev.0, byte, cx, py, 8) == row_collides(s0, byte, cx, py, 8)) by {
            if row_collides(prev.0, byte, cx, py, 8) {
                let k0 = choose|k: int| 0 <= k < 8 && byte & (0x80u8 >> (k as u8)) != 0
                    && prev.0[row_hit(cx, py, k)];
                assert(s0[row_hit(cx, py, k0)]);
                assert(row_collides(s0, byte, cx, py, 8));
            }
            if row_collides(s0, byte, cx, py, 8) {
                let k0 = choose|k: int| 0 <= k < 8 && byte & (0x80u8 >> (k as u8)) != 0
                    && s0[row_hit(cx, py, k)];
                assert(prev.0[row_hit(cx, py, k0)]);
                assert(row_collides(prev.0, byte, cx, py, 8));
            }
        }
        if draw_pref(s0, ram, idx, cx, cy, r).1 {
            if prev.1 {
                let (r0, k0) = choose|r2: int, k: int| 0 <= r2 < r - 1 && 0 <= k < 8
                    && ram[idx + r2] & (0x80u8 >> (k as u8)) != 0
                    && s0[row_hit(cx, wrapped_row(cy, r2), k)];
                assert(0 <= r0 < r && 0 <= k0 < 8
                    && ram[idx + r0] & (0x80u8 >> (k0 as u8)) != 0
                    && s0[row_hit(cx, wrapped_row(cy, r0), k0)]);
            } else {
                let k0 = choose|k: int| 0 <= k < 8 && byte & (0x80u8 >> (k as u8)) != 0
                    && s0[row_hit(cx, py, k)];
                assert(0 <= r - 1 < r && 0 <= k0 < 8
                    && ram[idx + r - 1] & (0x80u8 >> (k0 as u8)) != 0
                    && s0[row_hit(cx, wrapped_row(cy, r - 1), k0)]);
            }
            assert(sprite_collides(s0, ram, idx, cx, cy, r));
        } else {
            if sprite_collides(s0, ram, idx, cx, cy, r) {
                let (r0, k0) = choose|r2: int, k: int| 0 <= r2 < r && 0 <= k < 8
                    && ram[idx + r2] & (0x80u8 >> (k as u8)) != 0
                    && s0[row_hit(cx, wrapped_row(cy, r2), k)];
                if r0 < r - 1 {
                    assert(sprite_collides(s0, ram, idx, cx, cy, r - 1));
                } else {
                    assert(r0 == r - 1);
                    assert(row_collides(s0, byte, cx, py, 8));
                }
                assert(false);
            }
        }
    }
}

/// Law: sprite drawing is an XOR on the framebuffer: drawing the same
/// sprite twice at the same origin restores every pixel to its old value.
pub proof fn lemma_draw_twice_restores(s0: Seq<bool>, ram: Seq<u8>, idx: int, cx: u8, cy: u8, r: int)
    requires
        s0.len() == crate::SCREEN_SIZE,
        0 <= r <= 15,
    ensures
        draw_pref(draw_pref(s0, ram, idx, cx, cy, r).0, ram, idx, cx, cy, r).0 == s0,
{
    let s1 = draw_pref(s0, ram, idx, cx, cy, r).0;
    let s2 = draw_pref(s1, ram, idx, cx, cy, r).0;
    lemma_draw_len(s0, ram, idx, cx, cy, r);
    lemma_draw_len(s1, ram, idx, cx, cy, r);
    assert forall|i: int| 0 <= i < crate::SCREEN_SIZE implies s2[i] == s0[i] by {
        if exists|r2: int, k: int| 0 <= r2 < r && 0 <= k < 8
            && i == row_hit(cx, wrapped_row(cy, r2), k) {
            let (r2, k) = choose|r2: int, k: int| 0 <= r2 < r && 0 <= k < 8
                && i == row_hit(cx, wrapped_row(cy, r2), k);
            lemma_draw_toggle(s0, ram, idx, cx, cy, r, r2, k);
            lemma_draw_toggle(s1, ram, idx, cx, cy, r, r2, k);
        } else {
            lemma_draw_miss(s0, ram, idx, cx, cy, r, i);
            lemma_draw_miss(s1, ram, idx, cx, cy, r, i);
        }
    }
    assert(s2 =~= s0);
}

/// The effect of one decoded instruction on the machine state, with the
/// program counter already advanced past the instruction word. `rnd` is
/// the byte the random source produced for this cycle; only the
/// random-register instruction reads it.
pub open spec fn exec_spec(m: EmuModel, op: u16, rnd: u8) -> Result<EmuModel, VmError> {
    let h = nib_hi(op);
    let x = nib_x(op) as int;
    let y = nib_y(op) as int;
    let n = nib_n(op);
    let nn = imm_nn(op);
    let nnn = imm_nnn(op);
    if h == 0 {
        if nib_x(op) == 0 && nib_y(op) == 0 && n == 0 {
            // 0000: explicit no-op, for robustness against zero padding
            Ok(m)
        } else if nib_x(op) == 0 && nib_y(op) == 0xE && n == 0 {
            // 00E0: clear screen
            Ok(EmuModel { screen: blank_screen(), ..m })
        } else if nib_x(op) == 0 && nib_y(op) == 0xE && n == 0xE {
            // 00EE: return from subroutine
            if m.sp == 0 {
                Err(VmError::StackUnderflow { opcode: op })
            } else {
                Ok(EmuModel { pc: m.stack[m.sp - 1], sp: (m.sp - 1) as u16, ..m })
            }
        } else {
            Err(VmError::UnknownOpcode { opcode: op })
        }
    } else if h == 1 {
        // 1NNN: jump
        Ok(EmuModel { pc: nnn, ..m })
    } else if h == 2 {
        // 2NNN: call subroutine
        if m.sp >= 16 {
            Err(VmError::StackOverflow { opcode: op })
        } else {
            Ok(EmuModel {
                stack: m.stack.update(m.sp as int, m.pc),
                sp: (m.sp + 1) as u16,
                pc: nnn,
                ..m
            })
        }
    } else if h == 3 {
        // 3XNN: skip if VX == NN
        Ok(if m.regs[x] == nn { EmuModel { pc: m.pc.wrapping_add(2), ..m } } else { m })
    } else if h == 4 {
        // 4XNN: skip if VX != NN
        Ok(if m.regs[x] != nn { EmuModel { pc: m.pc.wrapping_add(2), ..m } } else { m })
    } else if h == 5 {
        // 5XY0: skip if VX == VY
        if n == 0 {
            Ok(if m.regs[x] == m.regs[y] { EmuModel { pc: m.pc.wrapping_add(2), ..m } } else { m })
        } else {
            Err(VmError::UnknownOpcode { opcode: op })
        }
    } else if h == 6 {
        // 6XNN: VX := NN
        Ok(EmuModel { regs: m.regs.update(x, nn), ..m })
    } else if h == 7 {
        // 7XNN: VX := VX + NN, wrapping, flags untouched
        Ok(EmuModel { regs: m.regs.update(x, m.regs[x].wrapping_add(nn)), ..m })
    } else if h == 8 {
        let vx = m.regs[x];
        let vy = m.regs[y];
        if n == 0 {
            // 8XY0: move
            Ok(EmuModel { regs: m.regs.update(x, vy), ..m })
        } else if n == 1 {
            // 8XY1: or
            Ok(EmuModel { regs: m.regs.update(x, vx | vy), ..m })
        } else if n == 2 {
            // 8XY2: and
            Ok(EmuModel { regs: m.regs.update(x, vx & vy), ..m })
        } else if n == 3 {
            // 8XY3: xor
            Ok(EmuModel { regs: m.regs.update(x, vx ^ vy), ..m })
        } else if n == 4 {
            // 8XY4: add with carry flag; VF written first, VX wins if X == F
            let carry: u8 = if vx + vy > 0xFF { 1 } else { 0 };
            Ok(EmuModel { regs: m.regs.update(15, carry).update(x, vx.wrapping_add(vy)), ..m })
        } else if n == 5 {
            // 8XY5: VX := VX - VY; VF = 1 when no borrow
            let flag: u8 = if vx >= vy { 1 } else { 0 };
            Ok(EmuModel { regs: m.regs.update(15, flag).update(x, vx.wrapping_sub(vy)), ..m })
        } else if n == 6 {
            // 8XY6: shift right; VF takes the dropped low bit, written last
            Ok(EmuModel { regs: m.regs.update(x, vx >> 1u8).update(15, vx & 1), ..m })
        } else if n == 7 {
            // 8XY7: VX := VY - VX; VF = 1 when no borrow, written last
            let flag: u8 = if vy >= vx { 1 } else { 0 };
            Ok(EmuModel { regs: m.regs.update(x, vy.wrapping_sub(vx)).update(15, flag), ..m })
        } else if n == 0xE {
            // 8XYE: shift left; VF takes the dropped high bit, written last
            Ok(EmuModel { regs: m.regs.update(x, vx << 1u8).update(15, (vx >> 7u8) & 1), ..m })
        } else {
            Err(VmError::UnknownOpcode { opcode: op })
        }
    } else if h == 9 {
        // 9XY0: skip if VX != VY
        if n == 0 {
            Ok(if m.regs[x] != m.regs[y] { EmuModel { pc: m.pc.wrapping_add(2), ..m } } else { m })
        } else {
            Err(VmError::UnknownOpcode { opcode: op })
        }
    } else if h == 0xA {
        // ANNN: I := NNN
        Ok(EmuModel { idx: nnn, ..m })
    } else if h == 0xB {
        // BNNN: jump to V0 + NNN
        Ok(EmuModel { pc: (m.regs[0] as u16).wrapping_add(nnn), ..m })
    } else if h == 0xC {
        // CXNN: VX := random byte masked by NN
        Ok(EmuModel { regs: m.regs.update(x, rnd & nn), ..m })
    } else if h == 0xD {
        // DXYN: draw an N-row sprite from memory at I
        let rows = n as int;
        if rows > 0 && m.idx + rows > crate::RAM_SIZE {
            Err(VmError::MemoryOutOfBounds { opcode: op, addr: m.idx })
        } else {
            let res = draw_pref(m.screen, m.ram, m.idx as int, m.regs[x], m.regs[y], rows);
            Ok(EmuModel {
                screen: res.0,
                regs: m.regs.update(15, if res.1 { 1u8 } else { 0u8 }),
                ..m
            })
        }
    } else if h == 0xE {
        let vx = m.regs[x];
        if nib_y(op) == 9 && n == 0xE {
            // EX9E: skip if the button named by VX is down
            if vx >= 16 {
                Err(VmError::KeyOutOfRange { opcode: op, key: vx })
            } else {
                Ok(if m.keys[vx as int] { EmuModel { pc: m.pc.wrapping_add(2), ..m } } else { m })
            }
        } else if nib_y(op) == 0xA && n == 1 {
            // EXA1: skip if the button named by VX is up
            if vx >= 16 {
                Err(VmError::KeyOutOfRange { opcode: op, key: vx })
            } else {
                Ok(if !m.keys[vx as int] { EmuModel { pc: m.pc.wrapping_add(2), ..m } } else { m })
            }
        } else {
            Err(VmError::UnknownOpcode { opcode: op })
        }
    } else {
        if nib_y(op) == 0 && n == 7 {
            // FX07: VX := delay timer
            Ok(EmuModel { regs: m.regs.update(x, m.delay), ..m })
        } else if nib_y(op) == 0 && n == 0xA {
            // FX0A: wait for a key by re-running this instruction until one
            // is down; the lowest pressed button index lands in VX
            let first = first_key_from(m.keys, 0);
            if first < 16 {
                Ok(EmuModel { regs: m.regs.update(x, first as u8), ..m })
            } else {
                Ok(EmuModel { pc: m.pc.wrapping_sub(2), ..m })
            }
        } else if nib_y(op) == 1 && n == 5 {
            // FX15: delay timer := VX
            Ok(EmuModel { delay: m.regs[x], ..m })
        } else if nib_y(op) == 1 && n == 8 {
            // FX18: sound timer := VX
            Ok(EmuModel { sound: m.regs[x], ..m })
        } else if nib_y(op) == 1 && n == 0xE {
            // FX1E: I := I + VX, wrapping
            Ok(EmuModel { idx: m.idx.wrapping_add(m.regs[x] as u16), ..m })
        } else if nib_y(op) == 2 && n == 9 {
            // FX29: I := font address of glyph VX (5 bytes per glyph)
            Ok(EmuModel { idx: (m.regs[x] * 5) as u16, ..m })
        } else if nib_y(op) == 3 && n == 3 {
            // FX33: store the decimal digits of VX at I, I+1, I+2
            if m.idx + 2 >= crate::RAM_SIZE {
                Err(VmError::MemoryOutOfBounds { opcode: op, addr: m.idx })
            } else {
                let vx = m.regs[x];
                Ok(EmuModel {
                    ram: m.ram
                        .update(m.idx as int, vx / 100)
                        .update(m.idx + 1, (vx / 10) % 10)
                        .update(m.idx + 2, vx % 10),
                    ..m
                })
            }
        } else if nib_y(op) == 5 && n == 5 {
            // FX55: store V0..=VX at I..
            if m.idx + x >= crate::RAM_SIZE {
                Err(VmError::MemoryOutOfBounds { opcode: op, addr: m.idx })
            } else {
                Ok(EmuModel { ram: stored_ram(m.ram, m.regs, m.idx as int, x + 1), ..m })
            }
        } else if nib_y(op) == 6 && n == 5 {
            // FX65: load V0..=VX from I..
            if m.idx + x >= crate::RAM_SIZE {
                Err(VmError::MemoryOutOfBounds { opcode: op, addr: m.idx })
            } else {
                Ok(EmuModel { regs: loaded_regs(m.regs, m.ram, m.idx as int, x + 1), ..m })
            }
        } else {
            Err(VmError::UnknownOpcode { opcode: op })
        }
    }
}

/// Whether a fetch can read a full instruction word at the program counter.
pub open spec fn fetch_ok(m: EmuModel) -> bool {
    m.pc + 1 < (crate::RAM_SIZE as int)
}

/// The big-endian instruction word at the program counter.
pub open spec fn fetched_word(m: EmuModel) -> u16 {
    ((m.ram[m.pc as int] as u16) << 8u16) | (m.ram[m.pc as int + 1] as u16)
}

/// One full cycle: fetch the word at `pc`, advance `pc` by two, execute.
pub open spec fn step_spec(m: EmuModel, rnd: u8) -> Result<EmuModel, VmError> {
    if fetch_ok(m) {
        exec_spec(EmuModel { pc: (m.pc + 2) as u16, ..m }, fetched_word(m), rnd)
    } else {
        Err(VmError::FetchOutOfBounds { pc: m.pc })
    }
}

/// How one executed cycle relates a machine's states and its outcome: on
/// success the new state is exactly what [`step_spec`] gives; on a fault
/// the reported error is exactly what [`step_spec`] gives and the state is
/// unchanged.
pub open spec fn step_outcome(pre: EmuModel, rnd: u8, post: EmuModel, r: Result<(), VmError>) -> bool {
    match r {
        Ok(()) => step_spec(pre, rnd) == Ok::<EmuModel, VmError>(post),
        Err(e) => step_spec(pre, rnd) == Err::<EmuModel, VmError>(e) && post == pre,
    }
}

/// The state after running one cycle per random byte in `rnds`, stopping
/// at the first fault.
pub open spec fn run_spec(m: EmuModel, rnds: Seq<u8>) -> Result<EmuModel, VmError>
    decreases rnds.len(),
{
    if rnds.len() == 0 {
        Ok(m)
    } else {
        match step_spec(m, rnds[0]) {
            Ok(m2) => run_spec(m2, rnds.subrange(1, rnds.len() as int)),
            Err(e) => Err(e),
        }
    }
}

} // verus!
