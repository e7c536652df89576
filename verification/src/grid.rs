//! The character grid: colors, styled cells, and the shared canvas that one
//! render pass fills in.

use vstd::prelude::*;

verus! {

/// Channel value that stands for full intensity (1.0). Channel values are
/// fixed-point: `v` stands for the intensity `v / CHANNEL_SCALE`.
pub const CHANNEL_SCALE: u16 = 1000;

/// An RGB color. Each channel is a fixed-point intensity in which
/// [`CHANNEL_SCALE`] stands for 1.0.
#[derive(Clone, Copy, PartialEq, Eq, Debug)]
pub struct Color {
    pub r: u16,
    pub g: u16,
    pub b: u16,
}

/// One styled character cell: a character, its color, and its typeface flags.
/// A cell is only ever overwritten wholesale, never partially updated.
#[derive(Clone, Copy, PartialEq, Eq, Debug)]
pub struct Symbol {
    pub character: char,
    pub color: Color,
    pub bold: bool,
    pub italic: bool,
}

/// The symbol a fresh grid holds in every cell: a space in the default
/// foreground color, neither bold nor italic.
pub open spec fn blank_symbol(fg_color: Color) -> Symbol {
    Symbol { character: ' ', color: fg_color, bold: false, italic: false }
}

/// The fixed-size canvas of one render pass: `rows` x `cols` cells, written
/// in place and never resized.
pub struct Grid {
    pub rows: usize,
    pub cols: usize,
    pub cells: Vec<Vec<Symbol>>,
}

impl View for Grid {
    type V = Seq<Seq<Symbol>>;

    open spec fn view(&self) -> Seq<Seq<Symbol>> {
        Seq::new(self.cells@.len() as nat, |i: int| self.cells@[i]@)
    }
}

impl Grid {
    /// The grid is rectangular: `rows` rows, each of exactly `cols` cells.
    pub open spec fn wf(&self) -> bool {
        &&& self@.len() == self.rows
        &&& forall|r: int| 0 <= r < self@.len() ==> (#[trigger] self@[r]).len() == self.cols
    }

    /// Allocates a `rows` x `cols` grid with every cell blank.
    pub fn new(rows: usize, cols: usize, fg_color: Color) -> (g: Grid)
        ensures
            g.wf(),
            g.rows == rows,
            g.cols == cols,
            forall|r: int, c: int|
                0 <= r < rows && 0 <= c < cols ==> g@[r][c] == blank_symbol(fg_color),
    {
        let mut cells: Vec<Vec<Symbol>> = Vec::new();
        let mut r: usize = 0;
        while r < rows
            invariant
                r <= rows,
                cells@.len() == r,
                forall|i: int| 0 <= i < r ==> (#[trigger] cells@[i])@.len() == cols,
                forall|i: int, j: int|
                    0 <= i < r && 0 <= j < cols ==> #[trigger] cells@[i]@[j] == blank_symbol(
                        fg_color,
                    ),
            decreases rows - r,
        {
            let mut row: Vec<Symbol> = Vec::new();
            let mut c: usize = 0;
            while c < cols
                invariant
                    c <= cols,
                    row@.len() == c,
                    forall|j: int| 0 <= j < c ==> #[trigger] row@[j] == blank_symbol(fg_color),
                decreases cols - c,
            {
                row.push(Symbol { character: ' ', color: fg_color, bold: false, italic: false });
                c += 1;
            }
            cells.push(row);
            r += 1;
        }
        Grid { rows, cols, cells }
    }

    /// Overwrites exactly one cell.
    pub fn write(&mut self, r: usize, c: usize, sym: Symbol)
        requires
            old(self).wf(),
            r < old(self).rows,
            c < old(self).cols,
        ensures
            final(self).wf(),
            final(self).rows == old(self).rows,
            final(self).cols == old(self).cols,
            final(self)@ == old(self)@.update(r as int, old(self)@[r as int].update(c as int, sym)),
    {
        proof {
            assert(self@.len() == self.cells@.len());
            assert(self@[r as int] == self.cells@[r as int]@);
        }
        self.cells[r][c] = sym;
        proof {
            assert(self@ =~= old(self)@.update(
                r as int,
                old(self)@[r as int].update(c as int, sym),
            ));
        }
    }

    /// Reads one cell.
    pub fn get(&self, r: usize, c: usize) -> (sym: Symbol)
        requires
            self.wf(),
            r < self.rows,
            c < self.cols,
        ensures
            sym == self@[r as int][c as int],
    {
        proof {
            assert(self@.len() == self.cells@.len());
            assert(self@[r as int] == self.cells@[r as int]@);
        }
        self.cells[r][c]
    }
}

} // verus!
