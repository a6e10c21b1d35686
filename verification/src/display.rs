//! An in-memory 80x50 character display: the surface the map and entities
//! are drawn onto, addressed like the tile grid.

use vstd::prelude::*;

use crate::components::Color;
use crate::map::spec_idx;
use crate::map::xy_idx;

verus! {

/// One character cell: a glyph with foreground and background colors.
#[derive(Clone, Copy, PartialEq, Eq, Structural, Debug)]
pub struct DisplayCell {
    pub glyph: u16,
    pub fg: Color,
    pub bg: Color,
}

/// The cell a cleared display holds everywhere: a space on black.
pub open spec fn blank_cell() -> DisplayCell {
    DisplayCell { glyph: 32, fg: Color { r: 0, g: 0, b: 0 }, bg: Color { r: 0, g: 0, b: 0 } }
}

/// A fixed 80x50 grid of character cells.
pub struct DisplayBuffer {
    pub cells: Vec<DisplayCell>,
}

impl DisplayBuffer {
    /// The display always holds exactly its 4000 cells.
    pub open spec fn wf(self) -> bool {
        self.cells.len() == 4000
    }

    /// A fresh, cleared display.
    pub fn new() -> (d: DisplayBuffer)
        ensures
            d.wf(),
            forall|i: int| 0 <= i < 4000 ==> d.cells@[i] == blank_cell(),
    {
        let blank = DisplayCell { glyph: 32, fg: Color { r: 0, g: 0, b: 0 }, bg: Color {
            r: 0,
            g: 0,
            b: 0,
        } };
        let mut cells: Vec<DisplayCell> = Vec::new();
        let mut n: usize = 0;
        while n < 4000
            invariant
                blank == blank_cell(),
                cells.len() == n,
                n <= 4000,
                forall|i: int| 0 <= i < n ==> #[trigger] cells@[i] == blank_cell(),
            decreases 4000 - n,
        {
            cells.push(blank);
            n = n + 1;
        }
        DisplayBuffer { cells }
    }

    /// Clears every cell back to blank.
    pub fn cls(&mut self)
        ensures
            final(self).wf(),
            forall|i: int| 0 <= i < 4000 ==> final(self).cells@[i] == blank_cell(),
    {
        *self = DisplayBuffer::new();
    }

    /// Writes a glyph with its colors at (x, y); coordinates off the display
    /// are ignored.
    pub fn set(&mut self, x: i32, y: i32, fg: Color, bg: Color, glyph: u16)
        requires
            old(self).wf(),
        ensures
            final(self).wf(),
            final(self).cells@ == (if 0 <= x < 80 && 0 <= y < 50 {
                old(self).cells@.update(
                    spec_idx(x as int, y as int),
                    (DisplayCell { glyph, fg, bg }),
                )
            } else {
                old(self).cells@
            }),
    {
        if 0 <= x && x < 80 && 0 <= y && y < 50 {
            let idx = xy_idx(x, y);
            self.cells.set(idx, DisplayCell { glyph, fg, bg });
        }
    }
}

} // verus!
