//! The console state: a fixed 128x128 grid of color indices, the current
//! draw color, and the random source. Out-of-range pixel writes are silently
//! dropped; out-of-range reads are a caller-contract violation and are
//! excluded up front.

use vstd::prelude::*;
use crate::rng::RandomSource;

verus! {

/// Number of cells in the screen grid.
pub const SCREEN_CELLS: usize = 16384;

/// Error signal for drawing operations that the console declares but does
/// not fulfil.
#[derive(Clone, Copy, Debug, PartialEq, Eq, Structural)]
pub enum DrawError {
    /// The operation is deliberately unimplemented.
    Unsupported,
}

/// The console: framebuffer grid (row-major, one color index per cell),
/// current draw color, and random source.
pub struct SystemImpl {
    /// The pixel grid, row-major: cell `(x, y)` lives at `x + y * 128`.
    pub screen: Vec<u8>,
    /// The current draw color, updated as a side effect of most drawing calls.
    pub color: u8,
    /// The seedable random source owned by the console.
    pub rng: RandomSource,
}

impl SystemImpl {
    /// The screen grid always holds exactly one cell per pixel.
    pub open spec fn wf(self) -> bool {
        self.screen@.len() == SCREEN_CELLS
    }

    /// The color index stored at `(x, y)`.
    pub open spec fn pix(self, x: int, y: int) -> u8 {
        self.screen@[x + y * 128]
    }

    /// A fresh console: zero-filled screen, current color 6, random source
    /// seeded from entropy.
    pub fn new() -> (s: SystemImpl)
        ensures
            s.wf(),
            s.color == 6,
            forall|x: int, y: int| 0 <= x < 128 && 0 <= y < 128 ==> #[trigger] s.pix(x, y) == 0,
            !s.rng.is_seeded(),
    {
        let mut screen: Vec<u8> = Vec::new();
        while screen.len() < SCREEN_CELLS
            invariant
                screen@.len() <= SCREEN_CELLS,
                forall|k: int| 0 <= k < screen@.len() ==> screen@[k] == 0,
            decreases SCREEN_CELLS - screen@.len(),
        {
            screen.push(0);
        }
        SystemImpl { screen, color: 6, rng: RandomSource::new() }
    }

    /// Read the color index at `(x, y)`. Coordinates must be on screen.
    pub fn pget(&mut self, x: u8, y: u8) -> (c: u8)
        requires
            old(self).wf(),
            x < 128,
            y < 128,
        ensures
            *final(self) == *old(self),
            c == old(self).pix(x as int, y as int),
    {
        self.screen[x as usize + y as usize * 128]
    }

    /// Set the current color to `color`; then, if `(x, y)` is on screen,
    /// store `color` there, else drop the write. The current color is
    /// updated even when the write is dropped.
    pub fn pset(&mut self, x: u8, y: u8, color: u8)
        requires
            old(self).wf(),
        ensures
            final(self).wf(),
            final(self).color == color,
            final(self).rng == old(self).rng,
            forall|px: int, py: int| 0 <= px < 128 && 0 <= py < 128 ==>
                #[trigger] final(self).pix(px, py) == (if px == x as int && py == y as int {
                    color
                } else {
                    old(self).pix(px, py)
                }),
    {
        self.color = color;
        if x < 128 && y < 128 {
            self.screen.set(x as usize + y as usize * 128, color);
        }
    }

    /// Set the current color without touching any pixel.
    pub fn color(&mut self, color: u8)
        requires
            old(self).wf(),
        ensures
            *final(self) == (SystemImpl { color, ..*old(self) }),
    {
        self.color = color;
    }

    /// Overwrite every cell of the grid with `color`. The current color and
    /// the random source are left as they are.
    pub fn cls(&mut self, color: u8)
        requires
            old(self).wf(),
        ensures
            final(self).wf(),
            final(self).color == old(self).color,
            final(self).rng == old(self).rng,
            forall|px: int, py: int| 0 <= px < 128 && 0 <= py < 128 ==>
                #[trigger] final(self).pix(px, py) == color,
    {
        let mut i: usize = 0;
        while i < SCREEN_CELLS
            invariant
                self.wf(),
                i <= SCREEN_CELLS,
                self.color == old(self).color,
                self.rng == old(self).rng,
                forall|k: int| 0 <= k < i ==> self.screen@[k] == color,
            decreases SCREEN_CELLS - i,
        {
            self.screen.set(i, color);
            i = i + 1;
        }
    }

    /// Draw a circle outline. Declared by the console's surface but
    /// deliberately unsupported: every call reports that, touching nothing.
    pub fn circ(&mut self, x: u8, y: u8, radius: u8, color: u8) -> (r: Result<(), DrawError>)
        requires
            old(self).wf(),
        ensures
            *final(self) == *old(self),
            r == Result::<(), DrawError>::Err(DrawError::Unsupported),
    {
        let _ = (x, y, radius, color);
        Err(DrawError::Unsupported)
    }

    /// Draw a filled circle. Declared by the console's surface but
    /// deliberately unsupported: every call reports that, touching nothing.
    pub fn circfill(&mut self, x: u8, y: u8, radius: u8, color: u8) -> (r: Result<(), DrawError>)
        requires
            old(self).wf(),
        ensures
            *final(self) == *old(self),
            r == Result::<(), DrawError>::Err(DrawError::Unsupported),
    {
        let _ = (x, y, radius, color);
        Err(DrawError::Unsupported)
    }

    /// Set the random number seed: all later draws from the console's source
    /// are a deterministic function of `seed` and the draw order.
    pub fn srand(&mut self, seed: u64)
        requires
            old(self).wf(),
        ensures
            final(self).wf(),
            final(self).screen == old(self).screen,
            final(self).color == old(self).color,
            final(self).rng.is_seeded(),
            final(self).rng.seed() == seed,
            final(self).rng.drawn() == 0,
    {
        self.rng.reseed(seed);
    }
}

} // verus!
