//! The machine core: memory, registers, call stack, timers, and the
//! fetch-decode-execute cycle. Every cycle is proved to follow the
//! instruction semantics given by [`crate::model::step_spec`]; on a fault
//! the state is left exactly as it was before the faulting cycle.

use vstd::prelude::*;
use crate::display::Display;
use crate::keypad::Keypad;
use crate::font::font_seq;
use crate::model::{
    EmuModel, VmError, wf_model, initial_model, initial_ram, nib_hi, nib_x, nib_y, nib_n,
    lemma_op_fields, tick_down, first_key_from, lemma_first_key_none,
    stored_ram, loaded_regs, draw_row_pref, draw_pref, lemma_draw_row_len, lemma_draw_len,
    exec_spec, fetch_ok, fetched_word, step_spec, step_outcome,
};

verus! {

/// The virtual machine: all state lives here and is mutated in place.
pub struct Emulator {
    counter: u16,
    ram: Vec<u8>,
    /// The framebuffer; the host reads it once per frame for presentation.
    pub screen: Display,
    var_reg: Vec<u8>,
    idx_reg: u16,
    stack: Vec<u16>,
    stack_ptr: u16,
    delay_timer: u8,
    sound_timer: u8,
    /// The input latch; the host records button transitions here.
    pub keys: Keypad,
}

impl View for Emulator {
    type V = EmuModel;

    closed spec fn view(&self) -> EmuModel {
        EmuModel {
            pc: self.counter,
            ram: self.ram@,
            screen: self.screen@,
            regs: self.var_reg@,
            idx: self.idx_reg,
            stack: self.stack@,
            sp: self.stack_ptr,
            delay: self.delay_timer,
            sound: self.sound_timer,
            keys: self.keys@,
        }
    }
}

/// Builds a vector of `n` zero bytes.
fn zeroed_bytes(n: usize) -> (v: Vec<u8>)
    ensures
        v@ == Seq::new(n as nat, |i: int| 0u8),
{
    let mut v: Vec<u8> = Vec::new();
    while v.len() < n
        invariant
            v@.len() <= n,
            forall|j: int| 0 <= j < v@.len() ==> v@[j] == 0u8,
        decreases n - v@.len(),
    {
        v.push(0);
    }
    proof {
        assert(v@ =~= Seq::new(n as nat, |i: int| 0u8));
    }
    v
}

/// Builds a vector of `n` zero words.
fn zeroed_words(n: usize) -> (v: Vec<u16>)
    ensures
        v@ == Seq::new(n as nat, |i: int| 0u16),
{
    let mut v: Vec<u16> = Vec::new();
    while v.len() < n
        invariant
            v@.len() <= n,
            forall|j: int| 0 <= j < v@.len() ==> v@[j] == 0u16,
        decreases n - v@.len(),
    {
        v.push(0);
    }
    proof {
        assert(v@ =~= Seq::new(n as nat, |i: int| 0u16));
    }
    v
}

/// Relies on rand::random: draws one byte from the thread-local random
/// generator. Nothing is promised of the value; every caller must be
/// correct whatever byte comes back.
#[verifier::external_body]
fn random_byte() -> u8 {
    rand::random::<u8>()
}

impl Emulator {
    /// The structural invariant: every component has its fixed size.
    pub open spec fn wf(&self) -> bool {
        wf_model(self@)
    }

    /// Creates a machine in its power-on state: zeroed registers and
    /// screen, the font table at the bottom of memory, and the program
    /// counter at the start address.
    pub fn new() -> (e: Emulator)
        ensures
            e.wf(),
            e@ == initial_model(),
    {
        let mut ram = zeroed_bytes(crate::RAM_SIZE);
        let font = crate::font::font_table();
        let mut i: usize = 0;
        while i < crate::FONT_SIZE
            invariant
                i <= crate::FONT_SIZE,
                ram@.len() == crate::RAM_SIZE,
                font@ == font_seq(),
                font@.len() == crate::FONT_SIZE,
                forall|j: int| 0 <= j < i ==> ram@[j] == font_seq()[j],
                forall|j: int| i <= j < crate::RAM_SIZE ==> ram@[j] == 0u8,
            decreases crate::FONT_SIZE - i,
        {
            let b = font[i];
            ram[i] = b;
            i += 1;
        }
        let e = Emulator {
            counter: crate::START_ADDRESS,
            ram,
            screen: Display::new(),
            var_reg: zeroed_bytes(crate::NUM_REGISTERS),
            idx_reg: 0,
            stack: zeroed_words(crate::STACK_SIZE),
            stack_ptr: 0,
            delay_timer: 0,
            sound_timer: 0,
            keys: Keypad::new(),
        };
        proof {
            assert(e@.ram =~= initial_ram());
            assert(e@ =~= initial_model());
        }
        e
    }

    /// Pushes a return address; the caller must know a slot is free.
    pub fn push(&mut self, value: u16)
        requires
            old(self).wf(),
            old(self)@.sp < crate::STACK_SIZE,
        ensures
            final(self).wf(),
            final(self)@ == (EmuModel {
                stack: old(self)@.stack.update(old(self)@.sp as int, value),
                sp: (old(self)@.sp + 1) as u16,
                ..old(self)@
            }),
    {
        let sp = self.stack_ptr as usize;
        self.stack[sp] = value;
        self.stack_ptr = self.stack_ptr + 1;
    }

    /// Pops the most recent return address; the caller must know one exists.
    pub fn pop(&mut self) -> (r: u16)
        requires
            old(self).wf(),
            old(self)@.sp > 0,
        ensures
            final(self).wf(),
            r == old(self)@.stack[old(self)@.sp - 1],
            final(self)@ == (EmuModel { sp: (old(self)@.sp - 1) as u16, ..old(self)@ }),
    {
        self.stack_ptr = self.stack_ptr - 1;
        self.stack[self.stack_ptr as usize]
    }

    /// Copies a program into memory starting at the start address.
    /// Everything else — registers, screen, timers — is untouched.
    pub fn load(&mut self, data: &[u8])
        requires
            old(self).wf(),
            data@.len() <= crate::MAX_PROGRAM_SIZE,
        ensures
            final(self).wf(),
            final(self)@ == (EmuModel {
                ram: stored_ram(
                    old(self)@.ram,
                    data@,
                    crate::START_ADDRESS as int,
                    data@.len() as int,
                ),
                ..old(self)@
            }),
    {
        let ghost m0 = old(self)@;
        let start = crate::START_ADDRESS as usize;
        let mut i: usize = 0;
        while i < data.len()
            invariant
                i <= data@.len(),
                data@.len() <= crate::MAX_PROGRAM_SIZE,
                start == crate::START_ADDRESS as usize,
                wf_model(m0),
                self@.ram.len() == crate::RAM_SIZE,
                forall|j: int| 0 <= j < crate::RAM_SIZE && !(start <= j < start + i)
                    ==> self@.ram[j] == m0.ram[j],
                forall|j: int| start <= j < start + i ==> self@.ram[j] == data@[j - start],
                self@ == (EmuModel { ram: self@.ram, ..m0 }),
            decreases data@.len() - i,
        {
            let b = data[i];
            self.ram[start + i] = b;
            i += 1;
        }
        proof {
            assert(self@.ram =~= stored_ram(
                m0.ram,
                data@,
                crate::START_ADDRESS as int,
                data@.len() as int,
            ));
        }
    }

    /// One fetch: reads the big-endian instruction word at `pc` and
    /// advances `pc` by two, or reports the fetch fault with `pc` intact.
    fn fetch(&mut self) -> (r: Result<u16, VmError>)
        requires
            old(self).wf(),
        ensures
            final(self).wf(),
            match r {
                Ok(op) => fetch_ok(old(self)@) && op == fetched_word(old(self)@)
                    && final(self)@ == (EmuModel { pc: (old(self)@.pc + 2) as u16, ..old(self)@ }),
                Err(e) => !fetch_ok(old(self)@)
                    && e == (VmError::FetchOutOfBounds { pc: old(self)@.pc })
                    && final(self)@ == old(self)@,
            },
    {
        let pc = self.counter as usize;
        if pc + 1 >= crate::RAM_SIZE {
            return Err(VmError::FetchOutOfBounds { pc: self.counter });
        }
        let hi = self.ram[pc];
        let lo = self.ram[pc + 1];
        let opcode = ((hi as u16) << 8u16) | (lo as u16);
        self.counter = self.counter + 2;
        Ok(opcode)
    }

    /// Executes one already-fetched instruction word (`pc` has been
    /// advanced past it). On a fault, nothing is changed.
    fn execute(&mut self, opcode: u16, rnd: u8) -> (r: Result<(), VmError>)
        requires
            old(self).wf(),
        ensures
            final(self).wf(),
            match r {
                Ok(()) => exec_spec(old(self)@, opcode, rnd) == Ok::<EmuModel, VmError>(final(self)@),
                Err(e) => exec_spec(old(self)@, opcode, rnd) == Err::<EmuModel, VmError>(e)
                    && final(self)@ == old(self)@,
            },
    {
        proof {
            lemma_op_fields(opcode);
        }
        let first = (opcode & 0xF000) >> 12;
        let second = (opcode & 0x0F00) >> 8;
        let third = (opcode & 0x00F0) >> 4;
        let fourth = opcode & 0x000F;
        let x = second as usize;
        let y = third as usize;
        match (first, second, third, fourth) {
            (0, 0, 0, 0) => {
                // 0000: explicit no-op
                Ok(())
            },
            (0, 0, 0xE, 0) => {
                // 00E0: clear screen
                self.screen.clear();
                Ok(())
            },
            (0, 0, 0xE, 0xE) => {
                // 00EE: return from subroutine
                if self.stack_ptr == 0 {
                    Err(VmError::StackUnderflow { opcode })
                } else {
                    let addr = self.pop();
                    self.counter = addr;
                    Ok(())
                }
            },
            (1, _, _, _) => {
                // 1NNN: jump
                let nnn = opcode & 0xFFF;
                self.counter = nnn;
                Ok(())
            },
            (2, _, _, _) => {
                // 2NNN: call subroutine
                if self.stack_ptr >= (crate::STACK_SIZE as u16) {
                    Err(VmError::StackOverflow { opcode })
                } else {
                    let nnn = opcode & 0xFFF;
                    let pc = self.counter;
                    self.push(pc);
                    self.counter = nnn;
                    Ok(())
                }
            },
            (3, _, _, _) => {
                // 3XNN: skip if VX == NN
                let nn = (opcode & 0xFF) as u8;
                if self.var_reg[x] == nn {
                    self.counter = self.counter.wrapping_add(2);
                }
                Ok(())
            },
            (4, _, _, _) => {
                // 4XNN: skip if VX != NN
                let nn = (opcode & 0xFF) as u8;
                if self.var_reg[x] != nn {
                    self.counter = self.counter.wrapping_add(2);
                }
                Ok(())
            },
            (5, _, _, 0) => {
                // 5XY0: skip if VX == VY
                if self.var_reg[x] == self.var_reg[y] {
                    self.counter = self.counter.wrapping_add(2);
                }
                Ok(())
            },
            (6, _, _, _) => {
                // 6XNN: VX := NN
                let nn = (opcode & 0xFF) as u8;
                self.var_reg[x] = nn;
                Ok(())
            },
            (7, _, _, _) => {
                // 7XNN: VX := VX + NN, wrapping, flags untouched
                let nn = (opcode & 0xFF) as u8;
                let vx = self.var_reg[x];
                self.var_reg[x] = vx.wrapping_add(nn);
                Ok(())
            },
            (8, _, _, 0) => {
                // 8XY0: move
                let vy = self.var_reg[y];
                self.var_reg[x] = vy;
                Ok(())
            },
            (8, _, _, 1) => {
                // 8XY1: or
                let vx = self.var_reg[x];
                let vy = self.var_reg[y];
                self.var_reg[x] = vx | vy;
                Ok(())
            },
            (8, _, _, 2) => {
                // 8XY2: and
                let vx = self.var_reg[x];
                let vy = self.var_reg[y];
                self.var_reg[x] = vx & vy;
                Ok(())
            },
            (8, _, _, 3) => {
                // 8XY3: xor
                let vx = self.var_reg[x];
                let vy = self.var_reg[y];
                self.var_reg[x] = vx ^ vy;
                Ok(())
            },
            (8, _, _, 4) => {
                // 8XY4: add with carry flag; the flag is written first so
                // the sum wins when X is F itself
                let vx = self.var_reg[x];
                let vy = self.var_reg[y];
                let carry: u8 = if (vx as u16) + (vy as u16) > 0xFF {
                    1
                } else {
                    0
                };
                self.var_reg[15] = carry;
                self.var_reg[x] = vx.wrapping_add(vy);
                Ok(())
            },
            (8, _, _, 5) => {
                // 8XY5: VX := VX - VY; VF = 1 when no borrow
                let vx = self.var_reg[x];
                let vy = self.var_reg[y];
                let flag: u8 = if vx >= vy {
                    1
                } else {
                    0
                };
                self.var_reg[15] = flag;
                self.var_reg[x] = vx.wrapping_sub(vy);
                Ok(())
            },
            (8, _, _, 6) => {
                // 8XY6: shift right; VF takes the dropped low bit
                let vx = self.var_reg[x];
                self.var_reg[x] = vx >> 1u8;
                self.var_reg[15] = vx & 1;
                Ok(())
            },
            (8, _, _, 7) => {
                // 8XY7: VX := VY - VX; VF = 1 when no borrow
                let vx = self.var_reg[x];
                let vy = self.var_reg[y];
                let flag: u8 = if vy >= vx {
                    1
                } else {
                    0
                };
                self.var_reg[x] = vy.wrapping_sub(vx);
                self.var_reg[15] = flag;
                Ok(())
            },
            (8, _, _, 0xE) => {
                // 8XYE: shift left; VF takes the dropped high bit
                let vx = self.var_reg[x];
                self.var_reg[x] = vx << 1u8;
                self.var_reg[15] = (vx >> 7u8) & 1;
                Ok(())
            },
            (9, _, _, 0) => {
                // 9XY0: skip if VX != VY
                if self.var_reg[x] != self.var_reg[y] {
                    self.counter = self.counter.wrapping_add(2);
                }
                Ok(())
            },
            (0xA, _, _, _) => {
                // ANNN: I := NNN
                let nnn = opcode & 0xFFF;
                self.idx_reg = nnn;
                Ok(())
            },
            (0xB, _, _, _) => {
                // BNNN: jump to V0 + NNN
                let nnn = opcode & 0xFFF;
                let v0 = self.var_reg[0];
                self.counter = (v0 as u16).wrapping_add(nnn);
                Ok(())
            },
            (0xC, _, _, _) => {
                // CXNN: VX := random byte masked by NN
                let nn = (opcode & 0xFF) as u8;
                self.var_reg[x] = rnd & nn;
                Ok(())
            },
            (0xD, _, _, _) => {
                // DXYN: draw an N-row sprite from memory at I; pixels are
                // XORed in with coordinate wraparound, and VF records
                // whether any lit pixel was turned off
                let rows = fourth as usize;
                let idx = self.idx_reg as usize;
                if rows > 0 && idx + rows > crate::RAM_SIZE {
                    Err(VmError::MemoryOutOfBounds { opcode, addr: self.idx_reg })
                } else {
                    let cx = self.var_reg[x];
                    let cy = self.var_reg[y];
                    let ghost m0 = old(self)@;
                    let mut flipped = false;
                    let mut y_line: usize = 0;
                    while y_line < rows
                        invariant
                            y_line <= rows,
                            rows < 16,
                            idx == m0.idx as usize,
                            rows > 0 ==> idx + rows <= crate::RAM_SIZE,
                            wf_model(m0),
                            x < 16,
                            y < 16,
                            cx == m0.regs[x as int],
                            cy == m0.regs[y as int],
                            ({
                                let res = draw_pref(
                                    m0.screen, m0.ram, m0.idx as int, cx, cy, y_line as int);
                                self@ == (EmuModel { screen: res.0, ..m0 })
                                    && flipped == res.1
                            }),
                        decreases rows - y_line,
                    {
                        proof {
                            lemma_draw_len(m0.screen, m0.ram, m0.idx as int, cx, cy, y_line as int);
                        }
                        let addr = idx + y_line;
                        let pixels = self.ram[addr];
                        let py = ((cy as usize) + y_line) % crate::SCREEN_HEIGHT;
                        let ghost srow = self@.screen;
                        let ghost f0 = flipped;
                        let mut x_line: usize = 0;
                        while x_line < 8
                            invariant
                                x_line <= 8,
                                wf_model(m0),
                                0 <= py < crate::SCREEN_HEIGHT,
                                py as int == (cy + y_line) % (crate::SCREEN_HEIGHT as int),
                                pixels == m0.ram[m0.idx + y_line],
                                srow == draw_pref(
                                    m0.screen, m0.ram, m0.idx as int, cx, cy, y_line as int).0,
                                f0 == draw_pref(
                                    m0.screen, m0.ram, m0.idx as int, cx, cy, y_line as int).1,
                                srow.len() == crate::SCREEN_SIZE,
                                ({
                                    let rr = draw_row_pref(srow, pixels, cx, py as int, x_line as int);
                                    self@ == (EmuModel { screen: rr.0, ..m0 })
                                        && flipped == (f0 || rr.1)
                                }),
                            decreases 8 - x_line,
                        {
                            proof {
                                lemma_draw_row_len(srow, pixels, cx, py as int, x_line as int);
                            }
                            let mask = 0x80u8 >> (x_line as u8);
                            if pixels & mask != 0 {
                                let px = ((cx as usize) + x_line) % crate::SCREEN_WIDTH;
                                let i = px + crate::SCREEN_WIDTH * py;
                                let cur = self.screen.get_screen()[i];
                                flipped = flipped || cur;
                                self.screen.set_screen(i, !cur);
                            }
                            x_line += 1;
                        }
                        y_line += 1;
                    }
                    proof {
                        lemma_draw_len(m0.screen, m0.ram, m0.idx as int, cx, cy, rows as int);
                    }
                    let vf: u8 = if flipped {
                        1
                    } else {
                        0
                    };
                    self.var_reg[15] = vf;
                    Ok(())
                }
            },
            (0xE, _, 9, 0xE) => {
                // EX9E: skip if the button named by VX is down
                let vx = self.var_reg[x];
                if vx >= 16 {
                    Err(VmError::KeyOutOfRange { opcode, key: vx })
                } else {
                    if self.keys.get_keys()[vx as usize] {
                        self.counter = self.counter.wrapping_add(2);
                    }
                    Ok(())
                }
            },
            (0xE, _, 0xA, 1) => {
                // EXA1: skip if the button named by VX is up
                let vx = self.var_reg[x];
                if vx >= 16 {
                    Err(VmError::KeyOutOfRange { opcode, key: vx })
                } else {
                    if !self.keys.get_keys()[vx as usize] {
                        self.counter = self.counter.wrapping_add(2);
                    }
                    Ok(())
                }
            },
            (0xF, _, 0, 7) => {
                // FX07: VX := delay timer
                let d = self.delay_timer;
                self.var_reg[x] = d;
                Ok(())
            },
            (0xF, _, 0, 0xA) => {
                // FX0A: wait for a key; if none is down, rewind pc so the
                // same instruction runs again next cycle
                let ghost m0 = old(self)@;
                let mut found: usize = crate::KEYPAD_SIZE;
                let mut i: usize = 0;
                while i < crate::KEYPAD_SIZE
                    invariant
                        i <= crate::KEYPAD_SIZE,
                        found <= crate::KEYPAD_SIZE,
                        wf_model(m0),
                        self@ == m0,
                        found == crate::KEYPAD_SIZE
                            ==> first_key_from(m0.keys, 0) == first_key_from(m0.keys, i as int),
                        found < crate::KEYPAD_SIZE
                            ==> first_key_from(m0.keys, 0) == found,
                    decreases crate::KEYPAD_SIZE - i,
                {
                    if found == crate::KEYPAD_SIZE {
                        if self.keys.get_keys()[i] {
                            found = i;
                        }
                    }
                    i += 1;
                }
                if found < crate::KEYPAD_SIZE {
                    self.var_reg[x] = found as u8;
                } else {
                    self.counter = self.counter.wrapping_sub(2);
                }
                Ok(())
            },
            (0xF, _, 1, 5) => {
                // FX15: delay timer := VX
                self.delay_timer = self.var_reg[x];
                Ok(())
            },
            (0xF, _, 1, 8) => {
                // FX18: sound timer := VX
                self.sound_timer = self.var_reg[x];
                Ok(())
            },
            (0xF, _, 1, 0xE) => {
                // FX1E: I := I + VX, wrapping
                let vx = self.var_reg[x];
                self.idx_reg = self.idx_reg.wrapping_add(vx as u16);
                Ok(())
            },
            (0xF, _, 2, 9) => {
                // FX29: I := font address of glyph VX (5 bytes per glyph)
                let vx = self.var_reg[x];
                self.idx_reg = (vx as u16) * 5;
                Ok(())
            },
            (0xF, _, 3, 3) => {
                // FX33: store the decimal digits of VX at I, I+1, I+2
                let idx = self.idx_reg as usize;
                if idx + 2 >= crate::RAM_SIZE {
                    Err(VmError::MemoryOutOfBounds { opcode, addr: self.idx_reg })
                } else {
                    let vx = self.var_reg[x];
                    self.ram[idx] = vx / 100;
                    self.ram[idx + 1] = (vx / 10) % 10;
                    self.ram[idx + 2] = vx % 10;
                    Ok(())
                }
            },
            (0xF, _, 5, 5) => {
                // FX55: store V0..=VX at I..
                let idx = self.idx_reg as usize;
                if idx + x >= crate::RAM_SIZE {
                    Err(VmError::MemoryOutOfBounds { opcode, addr: self.idx_reg })
                } else {
                    let ghost m0 = old(self)@;
                    let mut i: usize = 0;
                    while i <= x
                        invariant
                            i <= x + 1,
                            x < 16,
                            idx == m0.idx as usize,
                            idx + x < crate::RAM_SIZE,
                            wf_model(m0),
                            self@.ram.len() == crate::RAM_SIZE,
                            forall|j: int| 0 <= j < crate::RAM_SIZE && !(idx <= j < idx + i)
                                ==> self@.ram[j] == m0.ram[j],
                            forall|j: int| idx <= j < idx + i ==> self@.ram[j] == m0.regs[j - idx],
                            self@ == (EmuModel { ram: self@.ram, ..m0 }),
                        decreases x + 1 - i,
                    {
                        let v = self.var_reg[i];
                        self.ram[idx + i] = v;
                        i += 1;
                    }
                    proof {
                        assert(self@.ram =~= stored_ram(m0.ram, m0.regs, m0.idx as int, x as int + 1));
                    }
                    Ok(())
                }
            },
            (0xF, _, 6, 5) => {
                // FX65: load V0..=VX from I..
                let idx = self.idx_reg as usize;
                if idx + x >= crate::RAM_SIZE {
                    Err(VmError::MemoryOutOfBounds { opcode, addr: self.idx_reg })
                } else {
                    let ghost m0 = old(self)@;
                    let mut i: usize = 0;
                    while i <= x
                        invariant
                            i <= x + 1,
                            x < 16,
                            idx == m0.idx as usize,
                            idx + x < crate::RAM_SIZE,
                            wf_model(m0),
                            self@.regs.len() == crate::NUM_REGISTERS,
                            forall|j: int| 0 <= j < crate::NUM_REGISTERS && !(j < i)
                                ==> self@.regs[j] == m0.regs[j],
                            forall|j: int| 0 <= j < i ==> self@.regs[j] == m0.ram[idx + j],
                            self@ == (EmuModel { regs: self@.regs, ..m0 }),
                        decreases x + 1 - i,
                    {
                        let v = self.ram[idx + i];
                        self.var_reg[i] = v;
                        i += 1;
                    }
                    proof {
                        assert(self@.regs =~= loaded_regs(m0.regs, m0.ram, m0.idx as int, x as int + 1));
                    }
                    Ok(())
                }
            },
            (_, _, _, _) => {
                // unassigned encoding: host-fatal
                Err(VmError::UnknownOpcode { opcode })
            },
        }
    }

    /// One cycle driven by a caller-supplied random byte: fetch, then
    /// execute. Deterministic: the outcome is a function of the starting
    /// state and `rnd` alone. On a fault the state is unchanged.
    pub fn step_with_random(&mut self, rnd: u8) -> (r: Result<(), VmError>)
        requires
            old(self).wf(),
        ensures
            final(self).wf(),
            step_outcome(old(self)@, rnd, final(self)@, r),
    {
        match self.fetch() {
            Err(e) => Err(e),
            Ok(opcode) => {
                match self.execute(opcode, rnd) {
                    Ok(()) => Ok(()),
                    Err(e) => {
                        // undo the fetch so the state reported to the host
                        // is exactly the one the faulting cycle started from
                        self.counter = self.counter.wrapping_sub(2);
                        proof {
                            assert(self@ =~= old(self)@);
                        }
                        Err(e)
                    },
                }
            },
        }
    }

    /// One cycle with the random byte drawn from the machine's random
    /// source: whatever byte was drawn, the outcome is the one
    /// [`step_spec`] gives for it.
    pub fn cycle(&mut self) -> (r: Result<(), VmError>)
        requires
            old(self).wf(),
        ensures
            final(self).wf(),
            exists|rnd: u8| step_outcome(old(self)@, rnd, final(self)@, r),
    {
        let rnd = random_byte();
        let r = self.step_with_random(rnd);
        proof {
            assert(step_outcome(old(self)@, rnd, self@, r));
        }
        r
    }

    /// One timer tick, to be called once per rendered frame: each timer
    /// drops by one, flooring at zero.
    pub fn timer(&mut self)
        ensures
            final(self)@ == (EmuModel {
                delay: tick_down(old(self)@.delay),
                sound: tick_down(old(self)@.sound),
                ..old(self)@
            }),
    {
        if self.delay_timer > 0 {
            self.delay_timer = self.delay_timer - 1;
        }
        if self.sound_timer > 0 {
            // the tick that lands on zero is the audible-beep transition,
            // surfaced to the host through get_sound
            self.sound_timer = self.sound_timer - 1;
        }
    }

    /// The program counter.
    pub fn get_pc(&self) -> (r: u16)
        ensures
            r == self@.pc,
    {
        self.counter
    }

    /// The index register.
    pub fn get_index(&self) -> (r: u16)
        ensures
            r == self@.idx,
    {
        self.idx_reg
    }

    /// The delay timer.
    pub fn get_delay(&self) -> (r: u8)
        ensures
            r == self@.delay,
    {
        self.delay_timer
    }

    /// The sound timer.
    pub fn get_sound(&self) -> (r: u8)
        ensures
            r == self@.sound,
    {
        self.sound_timer
    }

    /// General-purpose register `i`.
    pub fn get_register(&self, i: usize) -> (r: u8)
        requires
            self.wf(),
            i < crate::NUM_REGISTERS,
        ensures
            r == self@.regs[i as int],
    {
        self.var_reg[i]
    }

    /// The memory byte at `addr`.
    pub fn read_ram(&self, addr: usize) -> (r: u8)
        requires
            self.wf(),
            addr < crate::RAM_SIZE,
        ensures
            r == self@.ram[addr as int],
    {
        self.ram[addr]
    }

    /// Runtime check of the structural invariant, for unverified hosts
    /// that want to validate before calling into the core.
    pub fn is_well_formed(&self) -> (b: bool)
        ensures
            b == self.wf(),
    {
        self.ram.len() == crate::RAM_SIZE && self.screen.get_screen().len() == crate::SCREEN_SIZE
            && self.var_reg.len() == crate::NUM_REGISTERS
            && self.stack.len() == crate::STACK_SIZE
            && self.keys.get_keys().len() == crate::KEYPAD_SIZE
            && self.stack_ptr <= (crate::STACK_SIZE as u16)
    }
}

/// Law: the register-register move, OR, AND and XOR instructions never
/// change the flags register `VF` unless `VF` itself is the destination.
pub proof fn lemma_logic_ops_preserve_vf(m: EmuModel, op: u16, rnd: u8)
    requires
        wf_model(m),
        nib_hi(op) == 8,
        nib_n(op) == 0 || nib_n(op) == 1 || nib_n(op) == 2 || nib_n(op) == 3,
        nib_x(op) != 0xF,
    ensures
        exec_spec(m, op, rnd) is Ok,
        exec_spec(m, op, rnd)->Ok_0.regs[15] == m.regs[15],
{
    lemma_op_fields(op);
}

/// Law: while no button is pressed, the key-wait instruction leaves the
/// whole machine state unchanged, so repeated cycles re-fetch the same
/// instruction forever and the program counter never advances.
pub proof fn lemma_key_wait_spins(m: EmuModel, rnd: u8)
    requires
        wf_model(m),
        fetch_ok(m),
        nib_hi(fetched_word(m)) == 0xF,
        nib_y(fetched_word(m)) == 0,
        nib_n(fetched_word(m)) == 0xA,
        forall|i: int| 0 <= i < 16 ==> !m.keys[i],
    ensures
        step_spec(m, rnd) == Ok::<EmuModel, VmError>(m),
{
    lemma_op_fields(fetched_word(m));
    lemma_first_key_none(m.keys, 0);
    assert(step_spec(m, rnd)->Ok_0 =~= m);
}

/// Law: while no button is pressed, any number of cycles spent on the
/// key-wait instruction leave the machine exactly where it was: the same
/// instruction is re-fetched every cycle and the program never advances.
pub proof fn lemma_key_wait_spins_forever(m: EmuModel, rnds: Seq<u8>)
    requires
        wf_model(m),
        fetch_ok(m),
        nib_hi(fetched_word(m)) == 0xF,
        nib_y(fetched_word(m)) == 0,
        nib_n(fetched_word(m)) == 0xA,
        forall|i: int| 0 <= i < 16 ==> !m.keys[i],
    ensures
        crate::model::run_spec(m, rnds) == Ok::<EmuModel, VmError>(m),
    decreases rnds.len(),
{
    if rnds.len() > 0 {
        lemma_key_wait_spins(m, rnds[0]);
        lemma_key_wait_spins_forever(m, rnds.subrange(1, rnds.len() as int));
    }
}

/// Law: with at least one button pressed, the key-wait instruction stores
/// the lowest pressed button index in `VX` and leaves the program counter
/// advanced past the instruction.
pub proof fn lemma_key_wait_advances(m: EmuModel, rnd: u8)
    requires
        wf_model(m),
        fetch_ok(m),
        nib_hi(fetched_word(m)) == 0xF,
        nib_y(fetched_word(m)) == 0,
        nib_n(fetched_word(m)) == 0xA,
        exists|i: int| 0 <= i < 16 && m.keys[i],
    ensures
        step_spec(m, rnd) is Ok,
        step_spec(m, rnd)->Ok_0.pc == m.pc + 2,
        0 <= first_key_from(m.keys, 0) < 16,
        m.keys[first_key_from(m.keys, 0)],
        step_spec(m, rnd)->Ok_0.regs == m.regs.update(
            nib_x(fetched_word(m)) as int,
            first_key_from(m.keys, 0) as u8,
        ),
{
    lemma_op_fields(fetched_word(m));
    crate::model::lemma_first_key_some(m.keys, 0);
}

/// Law: sprite coordinates wrap around the screen edges: as long as the
/// sprite's rows lie in memory, a draw succeeds whatever the origin
/// registers hold — an off-screen origin can never fault, because every
/// pixel position is taken modulo the screen size.
pub proof fn lemma_draw_wraps_in_bounds(m: EmuModel, op: u16, rnd: u8)
    requires
        wf_model(m),
        nib_hi(op) == 0xD,
        nib_n(op) == 0 || m.idx + nib_n(op) <= crate::RAM_SIZE,
    ensures
        exec_spec(m, op, rnd) is Ok,
{
    lemma_op_fields(op);
}

/// Law: the draw instruction reports a collision in `VF` exactly when
/// it turned some lit pixel off: `VF` is 1 when and only when a set
/// sprite bit landed on a pixel that was lit before the draw began.
pub proof fn lemma_draw_reports_collision(m: EmuModel, op: u16, rnd: u8)
    requires
        wf_model(m),
        nib_hi(op) == 0xD,
        nib_n(op) == 0 || m.idx + nib_n(op) <= crate::RAM_SIZE,
    ensures
        exec_spec(m, op, rnd) is Ok,
        exec_spec(m, op, rnd)->Ok_0.regs[15] == (if crate::model::sprite_collides(
            m.screen,
            m.ram,
            m.idx as int,
            m.regs[nib_x(op) as int],
            m.regs[nib_y(op) as int],
            nib_n(op) as int,
        ) {
            1u8
        } else {
            0u8
        }),
{
    lemma_op_fields(op);
    crate::model::lemma_draw_collision(
        m.screen,
        m.ram,
        m.idx as int,
        m.regs[nib_x(op) as int],
        m.regs[nib_y(op) as int],
        nib_n(op) as int,
    );
}

/// Law: one timer tick never drives a timer below zero: a zero timer
/// stays zero and a nonzero timer drops by exactly one.
pub proof fn lemma_timer_floor(t: u8)
    ensures
        tick_down(t) >= 0,
        t == 0 ==> tick_down(t) == 0,
        t > 0 ==> tick_down(t) == t - 1,
{
}

/// Law: a run is a function of the starting state and the random bytes
/// drawn, and of nothing else: equal starts and equal draws give equal
/// outcomes, register for register and byte for byte.
pub proof fn lemma_run_deterministic(m1: EmuModel, m2: EmuModel, rnds1: Seq<u8>, rnds2: Seq<u8>)
    requires
        m1 == m2,
        rnds1 == rnds2,
    ensures
        crate::model::run_spec(m1, rnds1) == crate::model::run_spec(m2, rnds2),
{
}

} // verus!
