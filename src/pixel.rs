use vstd::prelude::*;

verus! {

/// One logical cell of the framebuffer, with the grid position it stands at.
#[derive(Debug, Clone, Copy, PartialEq, Eq)]
pub struct Pixel {
    pub x: u32,
    pub y: u32,
    pub on: bool,
}

impl Pixel {
    pub fn new(x: u32, y: u32, on: bool) -> (r: Pixel)
        ensures
            r.x == x,
            r.y == y,
            r.on == on,
    {
        Pixel { x: x, y: y, on: on }
    }

    pub fn set(&mut self, on: bool)
        ensures
            *final(self) == (Pixel { on: on, ..*old(self) }),
    {
        self.on = on;
    }

    pub fn turn_off(&mut self)
        ensures
            *final(self) == (Pixel { on: false, ..*old(self) }),
    {
        self.on = false;
    }
}

} // verus!
