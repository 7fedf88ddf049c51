//! The input latch: pressed/released state for the 16 logical buttons.
//! The host translates raw key symbols to button indices 0x0..=0xF and
//! records transitions here; the machine core only reads the latch.

use vstd::prelude::*;

verus! {

/// Current pressed state of the 16 buttons; `true` means held down.
pub struct Keypad {
    keys: Vec<bool>,
}

impl View for Keypad {
    type V = Seq<bool>;

    closed spec fn view(&self) -> Seq<bool> {
        self.keys@
    }
}

impl Keypad {
    /// The latch always holds exactly one flag per button.
    pub open spec fn wf(&self) -> bool {
        self@.len() == crate::KEYPAD_SIZE
    }

    /// Creates a latch with every button released.
    pub fn new() -> (k: Keypad)
        ensures
            k.wf(),
            k@ == Seq::new(crate::KEYPAD_SIZE as nat, |i: int| false),
    {
        let mut keys: Vec<bool> = Vec::new();
        while keys.len() < crate::KEYPAD_SIZE
            invariant
                keys@.len() <= crate::KEYPAD_SIZE,
                forall|j: int| 0 <= j < keys@.len() ==> !keys@[j],
            decreases crate::KEYPAD_SIZE - keys@.len(),
        {
            keys.push(false);
        }
        proof {
            assert(keys@ =~= Seq::new(crate::KEYPAD_SIZE as nat, |i: int| false));
        }
        Keypad { keys }
    }

    /// Records a press (`pressed == true`) or release of button `i`.
    pub fn on_key_press(&mut self, i: usize, pressed: bool)
        requires
            old(self).wf(),
            i < crate::KEYPAD_SIZE,
        ensures
            final(self).wf(),
            final(self)@ == old(self)@.update(i as int, pressed),
    {
        self.keys[i] = pressed;
    }

    /// Read access to all 16 button states.
    pub fn get_keys(&self) -> (r: &Vec<bool>)
        ensures
            r@ == self@,
    {
        &self.keys
    }

    /// The built-in font table, for hosts that want to inspect it.
    pub fn get_font(&self) -> (v: Vec<u8>)
        ensures
            v@ == crate::font::font_seq(),
    {
        crate::font::font_table()
    }
}

} // verus!
