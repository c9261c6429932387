//! The 64 by 32 monochrome framebuffer, with a dirty flag that tells the
//! host when the screen needs to be redrawn.

use vstd::prelude::*;

verus! {

/// Width of the pixel grid.
pub const SCREEN_W: usize = 64;

/// Height of the pixel grid.
pub const SCREEN_H: usize = 32;

/// The pixel grid, stored flat with one cell per coordinate pair, and the
/// dirty flag.  A cell holds `true` when the pixel is lit.
pub struct Display {
    pub vram: Vec<bool>,
    pub changed: bool,
}

impl Display {
    /// The grid always holds exactly 64 * 32 cells.
    pub open spec fn wf(self) -> bool {
        self.vram@.len() == 2048
    }

    /// The cell at column `x`, row `y`.
    pub open spec fn pix(self, x: int, y: int) -> bool {
        self.vram@[x * 32 + y]
    }

    /// A fresh framebuffer: every cell clear, redraw owed to the host.
    pub fn new() -> (r: Display)
        ensures
            r.wf(),
            r.changed,
            forall|x: int, y: int| 0 <= x < 64 && 0 <= y < 32 ==> !r.pix(x, y),
    {
        let mut vram: Vec<bool> = Vec::new();
        while vram.len() < SCREEN_W * SCREEN_H
            invariant
                vram@.len() <= 2048,
                forall|j: int| 0 <= j < vram@.len() ==> !vram@[j],
            decreases 2048 - vram@.len(),
        {
            vram.push(false);
        }
        Display { vram, changed: true }
    }

    /// Clear every cell and mark the screen as needing a redraw.
    pub fn clear(&mut self)
        requires
            old(self).wf(),
        ensures
            final(self).wf(),
            final(self).changed,
            forall|x: int, y: int| 0 <= x < 64 && 0 <= y < 32 ==> !final(self).pix(x, y),
    {
        let mut j: usize = 0;
        while j < 2048
            invariant
                j <= 2048,
                self.vram@.len() == 2048,
                forall|k: int| 0 <= k < j ==> !self.vram@[k],
            decreases 2048 - j,
        {
            self.vram.set(j, false);
            j = j + 1;
        }
        self.changed = true;
    }

    /// Whether the pixel at `(x, y)` is lit.
    pub fn vram_get(&self, x: u8, y: u8) -> (r: bool)
        requires
            self.wf(),
            x < 64,
            y < 32,
        ensures
            r == self.pix(x as int, y as int),
    {
        self.vram[(x as usize) * 32 + (y as usize)]
    }

    /// Set the pixel at `(x, y)` and mark the screen as needing a redraw.
    pub fn vram_set(&mut self, x: u8, y: u8, new: bool)
        requires
            old(self).wf(),
            x < 64,
            y < 32,
        ensures
            final(self).wf(),
            final(self).changed,
            final(self).vram@ == old(self).vram@.update(x as int * 32 + y as int, new),
            final(self).pix(x as int, y as int) == new,
            forall|px: int, py: int|
                0 <= px < 64 && 0 <= py < 32 && !(px == x as int && py == y as int)
                    ==> final(self).pix(px, py) == old(self).pix(px, py),
    {
        self.vram.set((x as usize) * 32 + (y as usize), new);
        self.changed = true;
    }

    /// Hand the dirty flag to the host and reset it: returns whether any
    /// pixel was touched since the flag was last consumed.
    pub fn take_changed(&mut self) -> (r: bool)
        requires
            old(self).wf(),
        ensures
            final(self).wf(),
            r == old(self).changed,
            !final(self).changed,
            final(self).vram@ == old(self).vram@,
    {
        let r = self.changed;
        self.changed = false;
        r
    }
}

} // verus!
