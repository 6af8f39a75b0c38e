use vstd::prelude::*;

verus! {

pub const WIDTH: usize = 64;

pub const HEIGHT: usize = 32;

/// A standalone 64x32 frame with a redraw flag for a rendering backend.
pub struct Display {
    pub buffer: [[u8; WIDTH]; HEIGHT],
    pub needs_redraw: bool,
}

/// Every pixel of the frame is zero.
pub open spec fn blank(buffer: [[u8; WIDTH]; HEIGHT]) -> bool {
    forall|r: int, c: int| 0 <= r < 32 && 0 <= c < 64 ==> #[trigger] buffer@[r]@[c] == 0u8
}

impl Display {
    pub fn new() -> (d: Self)
        ensures
            blank(d.buffer),
            !d.needs_redraw,
    {
        Self { buffer: [[0u8; WIDTH]; HEIGHT], needs_redraw: false }
    }

    pub fn clear(&mut self)
        ensures
            blank(final(self).buffer),
            final(self).needs_redraw,
    {
        self.buffer = [[0u8; WIDTH]; HEIGHT];
        self.needs_redraw = true;
    }

    /// Hands the current frame to the renderer and marks it as drawn.
    pub fn take_frame(&mut self) -> (frame: [[u8; WIDTH]; HEIGHT])
        ensures
            frame == old(self).buffer,
            final(self).buffer == old(self).buffer,
            !final(self).needs_redraw,
    {
        self.needs_redraw = false;
        self.buffer
    }

    pub fn needs_redraw(&self) -> (r: bool)
        ensures
            r == self.needs_redraw,
    {
        self.needs_redraw
    }
}

impl Default for Display {
    fn default() -> (d: Self)
        ensures
            blank(d.buffer),
            !d.needs_redraw,
    {
        Display::new()
    }
}

} // verus!
