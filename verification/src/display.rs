//! The framebuffer: a fixed-size grid of monochrome pixels, stored row-major
//! (pixel `(x, y)` lives at index `x + SCREEN_WIDTH * y`). It is a pure state
//! container: the machine core toggles pixels while drawing sprites, and the
//! host reads the whole grid once per frame to present it.

use vstd::prelude::*;

verus! {

/// A monochrome bitmap of `SCREEN_SIZE` pixels; `true` means lit.
pub struct Display {
    screen: Vec<bool>,
}

impl View for Display {
    type V = Seq<bool>;

    closed spec fn view(&self) -> Seq<bool> {
        self.screen@
    }
}

/// The fully dark screen: every pixel off.
pub open spec fn blank_screen() -> Seq<bool> {
    Seq::new(crate::SCREEN_SIZE as nat, |i: int| false)
}

impl Display {
    /// The framebuffer always holds exactly one pixel per screen position.
    pub open spec fn wf(&self) -> bool {
        self@.len() == crate::SCREEN_SIZE
    }

    /// Creates a framebuffer with every pixel off.
    pub fn new() -> (d: Display)
        ensures
            d.wf(),
            d@ == blank_screen(),
    {
        let mut screen: Vec<bool> = Vec::new();
        while screen.len() < crate::SCREEN_SIZE
            invariant
                screen@.len() <= crate::SCREEN_SIZE,
                forall|j: int| 0 <= j < screen@.len() ==> !screen@[j],
            decreases crate::SCREEN_SIZE - screen@.len(),
        {
            screen.push(false);
        }
        proof {
            assert(screen@ =~= blank_screen());
        }
        Display { screen }
    }

    /// Turns every pixel off.
    pub fn clear(&mut self)
        ensures
            final(self).wf(),
            final(self)@ == blank_screen(),
    {
        let fresh = Display::new();
        self.screen = fresh.screen;
    }

    /// Writes one pixel.
    pub fn set_screen(&mut self, index: usize, val: bool)
        requires
            old(self).wf(),
            index < crate::SCREEN_SIZE,
        ensures
            final(self).wf(),
            final(self)@ == old(self)@.update(index as int, val),
    {
        self.screen[index] = val;
    }

    /// Read access to the whole pixel grid.
    pub fn get_screen(&self) -> (r: &Vec<bool>)
        ensures
            r@ == self@,
    {
        &self.screen
    }
}

} // verus!
