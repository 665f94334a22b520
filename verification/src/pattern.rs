//! Seed patterns: small pictures of live and dead cells.

use vstd::prelude::*;

verus! {

/// The Gosper glider gun, 36 cells wide and 9 high. Each number is one line
/// of the picture, its binary digits the cells from left to right.
pub const GOSPER_GLIDER_GUN: [u64; 9] = [
    0b000000000000000000000000100000000000,
    0b000000000000000000000010100000000000,
    0b000000000000110000001100000000000011,
    0b000000000001000100001100000000000011,
    0b110000000010000010001100000000000000,
    0b110000000010001011000010100000000000,
    0b000000000010000010000000100000000000,
    0b000000000001000100000000000000000000,
    0b000000000000110000000000000000000000,
];

/// The Simkin glider gun, 33 cells wide and 20 high, written as the Gosper
/// gun is.
pub const SIMKIN_GLIDER_GUN: [u64; 20] = [
    0b110000011000000000000000000000000,
    0b110000011000000000000000000000000,
    0b000000000000000000000000000000000,
    0b000011000000000000000000000000000,
    0b000011000000000000000000000000000,
    0b000000000000000000000000000000000,
    0b000000000000000000000000000000000,
    0b000000000000000000000000000000000,
    0b000000000000000000000000000000000,
    0b000000000000000000000011011000000,
    0b000000000000000000000100000100000,
    0b000000000000000000000100000010011,
    0b000000000000000000000111000100011,
    0b000000000000000000000000001000000,
    0b000000000000000000000000000000000,
    0b000000000000000000000000000000000,
    0b000000000000000000000000000000000,
    0b000000000000000000000000000000000,
    0b000000000000000000000000101100000,
    0b000000000000000000000000110100000,
];

/// The width of the Gosper glider gun in cells.
pub const GOSPER_WIDTH: u32 = 36;

/// The width of the Simkin glider gun in cells.
pub const SIMKIN_WIDTH: u32 = 33;

/// Whether the cell in column `x` of a line `width` cells wide is set: the
/// leftmost cell is the highest of the line's `width` binary digits.
pub open spec fn line_has(line: u64, width: nat, x: int) -> bool {
    0 <= x < width && width <= 64 && (line >> ((width - 1 - x) as u64)) & 1 == 1
}

/// A pattern as contracts see it: `width` cells to a line, one number per
/// line.
pub struct Picture {
    pub width: nat,
    pub lines: Seq<u64>,
}

impl Picture {
    /// The number of lines.
    pub open spec fn height(self) -> nat {
        self.lines.len()
    }

    /// Whether the picture has a live cell at column `x` of line `y`. Beyond
    /// the picture there is none.
    pub open spec fn has(self, x: int, y: int) -> bool {
        0 <= y < self.lines.len() && line_has(self.lines[y], self.width, x)
    }
}

/// The picture of the Gosper glider gun.
pub open spec fn gosper_picture() -> Picture {
    Picture { width: GOSPER_WIDTH as nat, lines: GOSPER_GLIDER_GUN@ }
}

/// The picture of the Simkin glider gun.
pub open spec fn simkin_picture() -> Picture {
    Picture { width: SIMKIN_WIDTH as nat, lines: SIMKIN_GLIDER_GUN@ }
}

/// A picture of live and dead cells, `width` cells wide, one number per
/// line.
pub struct Pattern {
    pub width: u32,
    pub lines: Vec<u64>,
}

impl View for Pattern {
    type V = Picture;

    open spec fn view(&self) -> Picture {
        Picture { width: self.width as nat, lines: self.lines@ }
    }
}

impl Pattern {
    /// A line has at least one cell and no more than a number has digits.
    pub open spec fn wf(&self) -> bool {
        1 <= self.width <= 64
    }

    /// The picture `width` cells wide whose lines are those of `lines`.
    pub fn from_lines(width: u32, lines: &[u64]) -> (pattern: Pattern)
        ensures
            pattern.width == width,
            pattern.lines@ == lines@,
    {
        let mut copy: Vec<u64> = Vec::new();
        let mut i: usize = 0;
        while i < lines.len()
            invariant
                i <= lines@.len(),
                copy@ == lines@.take(i as int),
            decreases lines@.len() - i,
        {
            copy.push(lines[i]);
            proof {
                assert(copy@ =~= lines@.take(i + 1));
            }
            i = i + 1;
        }
        proof {
            assert(lines@.take(i as int) =~= lines@);
        }
        Pattern { width, lines: copy }
    }

    /// The Gosper glider gun.
    pub fn gosper_glider_gun() -> (pattern: Pattern)
        ensures
            pattern.wf(),
            pattern@ == gosper_picture(),
            pattern@.height() == 9,
    {
        Pattern::from_lines(GOSPER_WIDTH, GOSPER_GLIDER_GUN.as_slice())
    }

    /// The Simkin glider gun.
    pub fn simkin_glider_gun() -> (pattern: Pattern)
        ensures
            pattern.wf(),
            pattern@ == simkin_picture(),
            pattern@.height() == 20,
    {
        Pattern::from_lines(SIMKIN_WIDTH, SIMKIN_GLIDER_GUN.as_slice())
    }

    /// Whether the picture has a live cell at column `x` of line `y`.
    pub fn is_set(&self, x: i64, y: i64) -> (set: bool)
        requires
            self.wf(),
        ensures
            set == self@.has(x as int, y as int),
    {
        if x < 0 || y < 0 || x >= self.width as i64 {
            return false;
        }
        if y as u64 >= self.lines.len() as u64 {
            return false;
        }
        let line: u64 = self.lines[y as usize];
        let shift: u64 = (self.width as u64) - 1 - (x as u64);
        (line >> shift) & 1 == 1
    }
}

} // verus!
