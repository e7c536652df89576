//! The view descriptor over the grid and the layout primitives that derive
//! child views: framing, splitting, and padding, plus the image renderer.

use vstd::prelude::*;
use crate::grid::{Color, Grid, Symbol};

verus! {

/// A rectangular region of the grid together with the ambient style colors.
///
/// `glimpse_origin` and `glimpse_size` are `(column, row)` pairs addressing
/// the region; `view_size` retains the full grid dimensions for external
/// reporting only and takes no part in address arithmetic. Copies are cheap
/// and all address the same grid, which is threaded through every operation
/// as an explicit mutable reference.
#[derive(Clone, Copy)]
pub struct LayoutContext {
    pub view_size: (usize, usize),
    pub glimpse_origin: (usize, usize),
    pub glimpse_size: (usize, usize),
    pub fg_color: Color,
    pub h1_color: Color,
    pub h2_color: Color,
    pub h3_color: Color,
    pub h4_color: Color,
}

/// A symbol carrying the given character and style.
pub open spec fn styled(character: char, color: Color, bold: bool, italic: bool) -> Symbol {
    Symbol { character, color, bold, italic }
}

impl LayoutContext {
    /// The region lies inside a `rows` x `cols` grid.
    pub open spec fn in_bounds(&self, rows: int, cols: int) -> bool {
        &&& self.glimpse_origin.1 + self.glimpse_size.1 <= rows
        &&& self.glimpse_origin.0 + self.glimpse_size.0 <= cols
    }

    /// The region is a valid view of the given grid.
    pub open spec fn wf(&self, g: Grid) -> bool {
        &&& g.wf()
        &&& self.in_bounds(g.rows as int, g.cols as int)
    }

    pub fn new(
        view_size: (usize, usize),
        glimpse_origin: (usize, usize),
        glimpse_size: (usize, usize),
        fg_color: Color,
        h1_color: Color,
        h2_color: Color,
        h3_color: Color,
        h4_color: Color,
    ) -> (ctx: LayoutContext)
        ensures
            ctx == (LayoutContext {
                view_size,
                glimpse_origin,
                glimpse_size,
                fg_color,
                h1_color,
                h2_color,
                h3_color,
                h4_color,
            }),
    {
        LayoutContext {
            view_size,
            glimpse_origin,
            glimpse_size,
            fg_color,
            h1_color,
            h2_color,
            h3_color,
            h4_color,
        }
    }

    /// The `(columns, rows)` extent of this region.
    pub fn view_size(&self) -> (s: (usize, usize))
        ensures
            s == self.glimpse_size,
    {
        self.glimpse_size
    }

    /// A symbol in the ambient foreground color, neither bold nor italic.
    pub(crate) fn c(&self, c: char) -> (sym: Symbol)
        ensures
            sym == styled(c, self.fg_color, false, false),
    {
        Symbol { character: c, color: self.fg_color, bold: false, italic: false }
    }
}

/// The child view `padding` derives: origin shifted by `(left, up)`, extent
/// reduced by `(left + right, up + down)`; `None` when fewer than one row or
/// one column would remain.
pub open spec fn padded_view(
    v: LayoutContext,
    left: int,
    right: int,
    up: int,
    down: int,
) -> Option<LayoutContext> {
    if v.glimpse_size.0 < left + right + 1 || v.glimpse_size.1 < up + down + 1 {
        None
    } else {
        Some(
            LayoutContext {
                view_size: v.view_size,
                glimpse_origin: (
                    (v.glimpse_origin.0 + left) as usize,
                    (v.glimpse_origin.1 + up) as usize,
                ),
                glimpse_size: (
                    (v.glimpse_size.0 - left - right) as usize,
                    (v.glimpse_size.1 - up - down) as usize,
                ),
                fg_color: v.fg_color,
                h1_color: v.h1_color,
                h2_color: v.h2_color,
                h3_color: v.h3_color,
                h4_color: v.h4_color,
            },
        )
    }
}

/// The cell at absolute grid position `(r, c)` lies on a corner of `v`'s
/// region.
pub open spec fn on_corner(v: LayoutContext, r: int, c: int) -> bool {
    let oc = v.glimpse_origin.0 as int;
    let or = v.glimpse_origin.1 as int;
    let w = v.glimpse_size.0 as int;
    let h = v.glimpse_size.1 as int;
    (r == or || r == or + h - 1) && (c == oc || c == oc + w - 1)
}

/// The cell lies on a vertical edge of `v`'s region, corners excluded.
pub open spec fn on_vertical_edge(v: LayoutContext, r: int, c: int) -> bool {
    let oc = v.glimpse_origin.0 as int;
    let or = v.glimpse_origin.1 as int;
    let w = v.glimpse_size.0 as int;
    let h = v.glimpse_size.1 as int;
    (c == oc || c == oc + w - 1) && or < r < or + h - 1
}

/// The cell lies on a horizontal edge of `v`'s region, corners excluded.
pub open spec fn on_horizontal_edge(v: LayoutContext, r: int, c: int) -> bool {
    let oc = v.glimpse_origin.0 as int;
    let or = v.glimpse_origin.1 as int;
    let w = v.glimpse_size.0 as int;
    let h = v.glimpse_size.1 as int;
    (r == or || r == or + h - 1) && oc < c < oc + w - 1
}

/// The border glyph `frame` draws at absolute position `(r, c)`, if any.
pub open spec fn frame_glyph(v: LayoutContext, r: int, c: int) -> Option<char> {
    if on_corner(v, r, c) {
        Some('+')
    } else if on_vertical_edge(v, r, c) {
        Some('|')
    } else if on_horizontal_edge(v, r, c) {
        Some('-')
    } else {
        None
    }
}

/// What the cell at `(r, c)` holds after `frame`: the border glyph in the
/// ambient foreground color where the border runs, the previous symbol
/// everywhere else.
pub open spec fn frame_cell(v: LayoutContext, prev: Symbol, r: int, c: int) -> Symbol {
    match frame_glyph(v, r, c) {
        Some(ch) => styled(ch, v.fg_color, false, false),
        None => prev,
    }
}

/// Where a split lands: a non-negative `split` counts from the start of the
/// axis, a negative one counts back from its end (`len`).
pub open spec fn split_loc_of(split: int, len: int) -> int {
    if split >= 0 {
        split
    } else {
        len + split
    }
}

/// The upper sub-view of a vertical split at local row `loc`: the rows before
/// the divider, or `None` when no row lies before it.
pub open spec fn vsplit_up_view(v: LayoutContext, loc: int) -> Option<LayoutContext> {
    if loc > 0 {
        Some(
            LayoutContext {
                glimpse_size: (v.glimpse_size.0, loc as usize),
                ..v
            },
        )
    } else {
        None
    }
}

/// The lower sub-view of a vertical split at local row `loc`: the rows after
/// the divider, or `None` when no row lies after it.
pub open spec fn vsplit_down_view(v: LayoutContext, loc: int) -> Option<LayoutContext> {
    if loc < v.glimpse_size.1 - 1 {
        Some(
            LayoutContext {
                glimpse_origin: (v.glimpse_origin.0, (v.glimpse_origin.1 + loc + 1) as usize),
                glimpse_size: (v.glimpse_size.0, (v.glimpse_size.1 - loc - 1) as usize),
                ..v
            },
        )
    } else {
        None
    }
}

/// The left sub-view of a horizontal split at local column `loc`.
pub open spec fn hsplit_left_view(v: LayoutContext, loc: int) -> Option<LayoutContext> {
    if loc > 0 {
        Some(
            LayoutContext {
                glimpse_size: (loc as usize, v.glimpse_size.1),
                ..v
            },
        )
    } else {
        None
    }
}

/// The right sub-view of a horizontal split at local column `loc`.
pub open spec fn hsplit_right_view(v: LayoutContext, loc: int) -> Option<LayoutContext> {
    if loc < v.glimpse_size.0 - 1 {
        Some(
            LayoutContext {
                glimpse_origin: ((v.glimpse_origin.0 + loc + 1) as usize, v.glimpse_origin.1),
                glimpse_size: ((v.glimpse_size.0 - loc - 1) as usize, v.glimpse_size.1),
                ..v
            },
        )
    } else {
        None
    }
}

impl LayoutContext {
    /// Draws a rectangular border along the edges of this region (`+` at the
    /// corners, `|` and `-` along the edges) and returns the view padded
    /// inward by one cell on every side. A region of fewer than 2 rows or
    /// 2 columns is left untouched and yields no inner view.
    pub fn frame(&self, grid: &mut Grid) -> (inner: Option<LayoutContext>)
        requires
            self.wf(*old(grid)),
        ensures
            final(grid).wf(),
            final(grid).rows == old(grid).rows,
            final(grid).cols == old(grid).cols,
            self.glimpse_size.0 < 2 || self.glimpse_size.1 < 2 ==> inner is None && final(grid)@
                == old(grid)@,
            self.glimpse_size.0 >= 2 && self.glimpse_size.1 >= 2 ==> inner == padded_view(
                *self,
                1,
                1,
                1,
                1,
            ) && forall|r: int, c: int|
                0 <= r < old(grid).rows && 0 <= c < old(grid).cols ==> final(grid)@[r][c]
                    == frame_cell(*self, old(grid)@[r][c], r, c),
    {
        let w = self.glimpse_size.0;
        let h = self.glimpse_size.1;
        if w < 2 || h < 2 {
            return None;
        }
        let oc = self.glimpse_origin.0;
        let or = self.glimpse_origin.1;

        grid.write(or, oc, self.c('+'));
        grid.write(or + h - 1, oc, self.c('+'));
        grid.write(or + h - 1, oc + w - 1, self.c('+'));
        grid.write(or, oc + w - 1, self.c('+'));

        let mut y = or + 1;
        while y < or + h - 1
            invariant
                self.wf(*grid),
                self.glimpse_size.0 == w >= 2,
                self.glimpse_size.1 == h >= 2,
                self.glimpse_origin.0 == oc,
                self.glimpse_origin.1 == or,
                or + 1 <= y <= or + h - 1,
                grid.rows == old(grid).rows,
                grid.cols == old(grid).cols,
                forall|r: int, c: int|
                    0 <= r < old(grid).rows && 0 <= c < old(grid).cols ==> #[trigger] grid@[r][c]
                        == (if on_corner(*self, r, c) {
                        styled('+', self.fg_color, false, false)
                    } else if on_vertical_edge(*self, r, c) && r < y {
                        styled('|', self.fg_color, false, false)
                    } else {
                        old(grid)@[r][c]
                    }),
            decreases or + h - 1 - y,
        {
            let ghost g_prev = grid@;
            grid.write(y, oc, self.c('|'));
            grid.write(y, oc + w - 1, self.c('|'));
            proof {
                assert forall|r: int, c: int|
                    0 <= r < old(grid).rows && 0 <= c < old(grid).cols implies #[trigger] grid@[r][c]
                    == (if on_corner(*self, r, c) {
                    styled('+', self.fg_color, false, false)
                } else if on_vertical_edge(*self, r, c) && r < y + 1 {
                    styled('|', self.fg_color, false, false)
                } else {
                    old(grid)@[r][c]
                }) by {
                    if r == y && (c == oc || c == oc + w - 1) {
                        assert(on_vertical_edge(*self, r, c));
                    } else {
                        assert(grid@[r][c] == g_prev[r][c]);
                    }
                }
            }
            y += 1;
        }

        let mut x = oc + 1;
        while x < oc + w - 1
            invariant
                self.wf(*grid),
                self.glimpse_size.0 == w >= 2,
                self.glimpse_size.1 == h >= 2,
                self.glimpse_origin.0 == oc,
                self.glimpse_origin.1 == or,
                oc + 1 <= x <= oc + w - 1,
                grid.rows == old(grid).rows,
                grid.cols == old(grid).cols,
                forall|r: int, c: int|
                    0 <= r < old(grid).rows && 0 <= c < old(grid).cols ==> #[trigger] grid@[r][c]
                        == (if on_corner(*self, r, c) {
                        styled('+', self.fg_color, false, false)
                    } else if on_vertical_edge(*self, r, c) {
                        styled('|', self.fg_color, false, false)
                    } else if on_horizontal_edge(*self, r, c) && c < x {
                        styled('-', self.fg_color, false, false)
                    } else {
                        old(grid)@[r][c]
                    }),
            decreases oc + w - 1 - x,
        {
            let ghost g_prev = grid@;
            grid.write(or, x, self.c('-'));
            grid.write(or + h - 1, x, self.c('-'));
            proof {
                assert forall|r: int, c: int|
                    0 <= r < old(grid).rows && 0 <= c < old(grid).cols implies #[trigger] grid@[r][c]
                    == (if on_corner(*self, r, c) {
                    styled('+', self.fg_color, false, false)
                } else if on_vertical_edge(*self, r, c) {
                    styled('|', self.fg_color, false, false)
                } else if on_horizontal_edge(*self, r, c) && c < x + 1 {
                    styled('-', self.fg_color, false, false)
                } else {
                    old(grid)@[r][c]
                }) by {
                    if (r == or || r == or + h - 1) && c == x {
                        assert(on_horizontal_edge(*self, r, c));
                    } else {
                        assert(grid@[r][c] == g_prev[r][c]);
                    }
                }
            }
            x += 1;
        }

        proof {
            assert forall|r: int, c: int|
                0 <= r < old(grid).rows && 0 <= c < old(grid).cols implies #[trigger] grid@[r][c]
                == frame_cell(*self, old(grid)@[r][c], r, c) by {
            }
        }
        self.padding(1, 1, 1, 1)
    }

    /// Derives the interior view left after `left`/`right` columns and
    /// `up`/`down` rows of padding, or `None` when the region is too small
    /// to keep at least one row and one column.
    pub fn padding(&self, left: usize, right: usize, up: usize, down: usize) -> (inner: Option<
        LayoutContext,
    >)
        requires
            self.glimpse_origin.0 + self.glimpse_size.0 <= usize::MAX,
            self.glimpse_origin.1 + self.glimpse_size.1 <= usize::MAX,
        ensures
            inner == padded_view(*self, left as int, right as int, up as int, down as int),
    {
        let w = self.glimpse_size.0;
        let h = self.glimpse_size.1;
        if w <= left || w - left <= right {
            return None;
        }
        if h <= up || h - up <= down {
            return None;
        }
        Some(
            LayoutContext {
                view_size: self.view_size,
                glimpse_origin: (self.glimpse_origin.0 + left, self.glimpse_origin.1 + up),
                glimpse_size: (w - left - right, h - up - down),
                fg_color: self.fg_color,
                h1_color: self.h1_color,
                h2_color: self.h2_color,
                h3_color: self.h3_color,
                h4_color: self.h4_color,
            },
        )
    }

    /// Splits this region along the row axis at `split` (negative values
    /// count from the bottom). In range, a full-width `-` divider is drawn at
    /// the resolved local row and the rows before and after it come back as
    /// the two sub-views; the divider row belongs to neither. A location
    /// below the region hands the whole view to the second result, one above
    /// it to the first, with nothing drawn. A split resolving to exactly the
    /// region's height draws its divider on the row just past the region,
    /// which must then still lie inside the grid.
    pub fn vsplit(&self, grid: &mut Grid, split: isize) -> (parts: (
        Option<LayoutContext>,
        Option<LayoutContext>,
    ))
        requires
            self.wf(*old(grid)),
            split_loc_of(split as int, self.glimpse_size.1 as int) == self.glimpse_size.1
                ==> self.glimpse_origin.1 + self.glimpse_size.1 < old(grid).rows,
        ensures
            final(grid).wf(),
            final(grid).rows == old(grid).rows,
            final(grid).cols == old(grid).cols,
            split_loc_of(split as int, self.glimpse_size.1 as int) < 0 ==> parts == (
                None::<LayoutContext>,
                Some(*self),
            ) && final(grid)@ == old(grid)@,
            split_loc_of(split as int, self.glimpse_size.1 as int) > self.glimpse_size.1 ==> parts
                == (Some(*self), None::<LayoutContext>) && final(grid)@ == old(grid)@,
            0 <= split_loc_of(split as int, self.glimpse_size.1 as int) <= self.glimpse_size.1 ==> {
                &&& parts.0 == vsplit_up_view(
                    *self,
                    split_loc_of(split as int, self.glimpse_size.1 as int),
                )
                &&& parts.1 == vsplit_down_view(
                    *self,
                    split_loc_of(split as int, self.glimpse_size.1 as int),
                )
                &&& forall|r: int, c: int|
                    0 <= r < old(grid).rows && 0 <= c < old(grid).cols ==> #[trigger] final(grid)@[r][c] == (if r == self.glimpse_origin.1 + split_loc_of(
                        split as int,
                        self.glimpse_size.1 as int,
                    ) && self.glimpse_origin.0 <= c < self.glimpse_origin.0 + self.glimpse_size.0 {
                        styled('-', self.fg_color, false, false)
                    } else {
                        old(grid)@[r][c]
                    })
            },
    {
        let w = self.glimpse_size.0;
        let h = self.glimpse_size.1;
        let oc = self.glimpse_origin.0;
        let or = self.glimpse_origin.1;

        let loc: usize;
        if split >= 0 {
            let s = split as usize;
            if s > h {
                return (Some(*self), None);
            }
            loc = s;
        } else {
            let resolved: i128 = h as i128 + split as i128;
            if resolved < 0 {
                return (None, Some(*self));
            }
            loc = resolved as usize;
        }

        let mut x = oc;
        while x < oc + w
            invariant
                self.wf(*grid),
                self.glimpse_size.0 == w,
                self.glimpse_size.1 == h,
                self.glimpse_origin.0 == oc,
                self.glimpse_origin.1 == or,
                oc <= x <= oc + w,
                loc <= h,
                loc == h ==> or + h < grid.rows,
                grid.rows == old(grid).rows,
                grid.cols == old(grid).cols,
                forall|r: int, c: int|
                    0 <= r < old(grid).rows && 0 <= c < old(grid).cols ==> #[trigger] grid@[r][c]
                        == (if r == or + loc && oc <= c < x {
                        styled('-', self.fg_color, false, false)
                    } else {
                        old(grid)@[r][c]
                    }),
            decreases oc + w - x,
        {
            let ghost g_prev = grid@;
            grid.write(or + loc, x, self.c('-'));
            proof {
                assert forall|r: int, c: int|
                    0 <= r < old(grid).rows && 0 <= c < old(grid).cols implies #[trigger] grid@[r][c]
                    == (if r == or + loc && oc <= c < x + 1 {
                    styled('-', self.fg_color, false, false)
                } else {
                    old(grid)@[r][c]
                }) by {
                    if !(r == or + loc && c == x) {
                        assert(grid@[r][c] == g_prev[r][c]);
                    }
                }
            }
            x += 1;
        }

        let up = if loc > 0 {
            Some(
                LayoutContext {
                    glimpse_size: (w, loc),
                    ..*self
                },
            )
        } else {
            None
        };
        let down = if h > 0 && loc < h - 1 {
            Some(
                LayoutContext {
                    glimpse_origin: (oc, or + loc + 1),
                    glimpse_size: (w, h - loc - 1),
                    ..*self
                },
            )
        } else {
            None
        };
        (up, down)
    }

    /// The exact column-axis analogue of [`Self::vsplit`], with a `|`
    /// divider: in range, the columns left and right of the divider come
    /// back as the two sub-views. A split resolving to exactly the region's
    /// width draws its divider on the column just past the region, which
    /// must then still lie inside the grid.
    pub fn hsplit(&self, grid: &mut Grid, split: isize) -> (parts: (
        Option<LayoutContext>,
        Option<LayoutContext>,
    ))
        requires
            self.wf(*old(grid)),
            split_loc_of(split as int, self.glimpse_size.0 as int) == self.glimpse_size.0
                ==> self.glimpse_origin.0 + self.glimpse_size.0 < old(grid).cols,
        ensures
            final(grid).wf(),
            final(grid).rows == old(grid).rows,
            final(grid).cols == old(grid).cols,
            split_loc_of(split as int, self.glimpse_size.0 as int) < 0 ==> parts == (
                None::<LayoutContext>,
                Some(*self),
            ) && final(grid)@ == old(grid)@,
            split_loc_of(split as int, self.glimpse_size.0 as int) > self.glimpse_size.0 ==> parts
                == (Some(*self), None::<LayoutContext>) && final(grid)@ == old(grid)@,
            0 <= split_loc_of(split as int, self.glimpse_size.0 as int) <= self.glimpse_size.0 ==> {
                &&& parts.0 == hsplit_left_view(
                    *self,
                    split_loc_of(split as int, self.glimpse_size.0 as int),
                )
                &&& parts.1 == hsplit_right_view(
                    *self,
                    split_loc_of(split as int, self.glimpse_size.0 as int),
                )
                &&& forall|r: int, c: int|
                    0 <= r < old(grid).rows && 0 <= c < old(grid).cols ==> #[trigger] final(grid)@[r][c] == (if c == self.glimpse_origin.0 + split_loc_of(
                        split as int,
                        self.glimpse_size.0 as int,
                    ) && self.glimpse_origin.1 <= r < self.glimpse_origin.1 + self.glimpse_size.1 {
                        styled('|', self.fg_color, false, false)
                    } else {
                        old(grid)@[r][c]
                    })
            },
    {
        let w = self.glimpse_size.0;
        let h = self.glimpse_size.1;
        let oc = self.glimpse_origin.0;
        let or = self.glimpse_origin.1;

        let loc: usize;
        if split >= 0 {
            let s = split as usize;
            if s > w {
                return (Some(*self), None);
            }
            loc = s;
        } else {
            let resolved: i128 = w as i128 + split as i128;
            if resolved < 0 {
                return (None, Some(*self));
            }
            loc = resolved as usize;
        }

        let mut y = or;
        while y < or + h
            invariant
                self.wf(*grid),
                self.glimpse_size.0 == w,
                self.glimpse_size.1 == h,
                self.glimpse_origin.0 == oc,
                self.glimpse_origin.1 == or,
                or <= y <= or + h,
                loc <= w,
                loc == w ==> oc + w < grid.cols,
                grid.rows == old(grid).rows,
                grid.cols == old(grid).cols,
                forall|r: int, c: int|
                    0 <= r < old(grid).rows && 0 <= c < old(grid).cols ==> #[trigger] grid@[r][c]
                        == (if c == oc + loc && or <= r < y {
                        styled('|', self.fg_color, false, false)
                    } else {
                        old(grid)@[r][c]
                    }),
            decreases or + h - y,
        {
            let ghost g_prev = grid@;
            grid.write(y, oc + loc, self.c('|'));
            proof {
                assert forall|r: int, c: int|
                    0 <= r < old(grid).rows && 0 <= c < old(grid).cols implies #[trigger] grid@[r][c]
                    == (if c == oc + loc && or <= r < y + 1 {
                    styled('|', self.fg_color, false, false)
                } else {
                    old(grid)@[r][c]
                }) by {
                    if !(c == oc + loc && r == y) {
                        assert(grid@[r][c] == g_prev[r][c]);
                    }
                }
            }
            y += 1;
        }

        let left = if loc > 0 {
            Some(
                LayoutContext {
                    glimpse_size: (loc, h),
                    ..*self
                },
            )
        } else {
            None
        };
        let right = if w > 0 && loc < w - 1 {
            Some(
                LayoutContext {
                    glimpse_origin: (oc + loc + 1, or),
                    glimpse_size: (w - loc - 1, h),
                    ..*self
                },
            )
        } else {
            None
        };
        (left, right)
    }
}

/// A layout pass that starts from an in-bounds view can never address a
/// grid cell out of bounds through `padding` (and hence through `frame`,
/// whose interior view is the one-cell padding of its own): whenever the
/// interior view exists, it lies inside every grid the parent lies inside.
pub proof fn lemma_padded_view_in_bounds(
    v: LayoutContext,
    rows: int,
    cols: int,
    left: int,
    right: int,
    up: int,
    down: int,
)
    requires
        v.in_bounds(rows, cols),
        0 <= left,
        0 <= right,
        0 <= up,
        0 <= down,
    ensures
        padded_view(v, left, right, up, down) matches Some(inner) ==> inner.in_bounds(rows, cols),
{
}

/// Both sub-views of an in-range vertical split lie inside every grid the
/// parent lies inside: splitting never escapes the grid.
pub proof fn lemma_vsplit_views_in_bounds(v: LayoutContext, rows: int, cols: int, loc: int)
    requires
        v.in_bounds(rows, cols),
        0 <= loc <= v.glimpse_size.1,
    ensures
        vsplit_up_view(v, loc) matches Some(up) ==> up.in_bounds(rows, cols),
        vsplit_down_view(v, loc) matches Some(down) ==> down.in_bounds(rows, cols),
{
}

/// The column-axis analogue of [`lemma_vsplit_views_in_bounds`].
pub proof fn lemma_hsplit_views_in_bounds(v: LayoutContext, rows: int, cols: int, loc: int)
    requires
        v.in_bounds(rows, cols),
        0 <= loc <= v.glimpse_size.0,
    ensures
        hsplit_left_view(v, loc) matches Some(left) ==> left.in_bounds(rows, cols),
        hsplit_right_view(v, loc) matches Some(right) ==> right.in_bounds(rows, cols),
{
}

/// The luma of a pixel, in thousandths of a channel unit: with channels on
/// the [`crate::grid::CHANNEL_SCALE`] scale, full brightness is 1_000_000.
pub open spec fn luma_of(p: Color) -> int {
    299 * p.r + 587 * p.g + 114 * p.b
}

/// The glyph a brightness band selects, lower bound inclusive: darkest `.`,
/// then `:`, `o`, `0`, and `@` for everything from 0.8 up.
pub open spec fn brightness_glyph(luma: int) -> char {
    if luma < 200_000 {
        '.'
    } else if luma < 400_000 {
        ':'
    } else if luma < 600_000 {
        'o'
    } else {
        if luma < 800_000 {
            '0'
        } else {
            '@'
        }
    }
}

/// The cell `img` writes for a source pixel: the brightness-band glyph in the
/// pixel's own color, neither bold nor italic.
pub open spec fn pixel_symbol(p: Color) -> Symbol {
    styled(brightness_glyph(luma_of(p)), p, false, false)
}

/// The source pixel at `(r, c)` lands inside both the image and this region.
pub open spec fn img_covers(v: LayoutContext, w: int, h: int, r: int, c: int) -> bool {
    let dy = r - v.glimpse_origin.1;
    let dx = c - v.glimpse_origin.0;
    &&& 0 <= dy < h
    &&& dy < v.glimpse_size.1
    &&& 0 <= dx < w
    &&& dx < v.glimpse_size.0
}

impl LayoutContext {
    /// Renders a `w` x `h` image, given as row-major pixels, one grid cell
    /// per source pixel: each pixel within the region's extent is written as
    /// its brightness-band glyph in its own color; pixels beyond the extent
    /// are dropped. The region is not shrunk afterwards.
    pub fn img(&self, grid: &mut Grid, img: &Vec<Color>, w: usize, h: usize)
        requires
            self.wf(*old(grid)),
            img@.len() == w * h,
        ensures
            final(grid).wf(),
            final(grid).rows == old(grid).rows,
            final(grid).cols == old(grid).cols,
            forall|r: int, c: int|
                0 <= r < old(grid).rows && 0 <= c < old(grid).cols ==> #[trigger] final(grid)@[r][c]
                    == (if img_covers(*self, w as int, h as int, r, c) {
                    pixel_symbol(img@[(r - self.glimpse_origin.1) * w + (c - self.glimpse_origin.0)])
                } else {
                    old(grid)@[r][c]
                }),
    {
        let oc = self.glimpse_origin.0;
        let or = self.glimpse_origin.1;
        let gw = self.glimpse_size.0;
        let gh = self.glimpse_size.1;
        let pix_count = img.len();

        let mut y: usize = 0;
        while y < h
            invariant
                self.wf(*grid),
                self.glimpse_origin.0 == oc,
                self.glimpse_origin.1 == or,
                self.glimpse_size.0 == gw,
                self.glimpse_size.1 == gh,
                y <= h,
                img@.len() == w * h,
                pix_count == img@.len(),
                grid.rows == old(grid).rows,
                grid.cols == old(grid).cols,
                forall|r: int, c: int|
                    0 <= r < old(grid).rows && 0 <= c < old(grid).cols ==> #[trigger] grid@[r][c]
                        == (if img_covers(*self, w as int, h as int, r, c) && r - or < y {
                        pixel_symbol(img@[(r - or) * w + (c - oc)])
                    } else {
                        old(grid)@[r][c]
                    }),
            decreases h - y,
        {
            let mut x: usize = 0;
            while x < w
                invariant
                    self.wf(*grid),
                    self.glimpse_origin.0 == oc,
                    self.glimpse_origin.1 == or,
                    self.glimpse_size.0 == gw,
                    self.glimpse_size.1 == gh,
                    y < h,
                    x <= w,
                    img@.len() == w * h,
                    pix_count == img@.len(),
                    grid.rows == old(grid).rows,
                    grid.cols == old(grid).cols,
                    forall|r: int, c: int|
                        0 <= r < old(grid).rows && 0 <= c < old(grid).cols ==> #[trigger] grid@[r][c]
                            == (if img_covers(*self, w as int, h as int, r, c) && (r - or < y || (r
                            - or == y && c - oc < x)) {
                            pixel_symbol(img@[(r - or) * w + (c - oc)])
                        } else {
                            old(grid)@[r][c]
                        }),
                decreases w - x,
            {
                if x < gw && y < gh {
                    proof {
                        assert(y * w + x < h * w) by (nonlinear_arith)
                            requires
                                y < h,
                                x < w,
                        ;
                        assert(h * w == w * h) by (nonlinear_arith);
                    }
                    let pix = y * w + x;
                    let p = img[pix];
                    let luma: u32 = 299 * (p.r as u32) + 587 * (p.g as u32) + 114 * (p.b as u32);
                    let ch: char;
                    if luma < 200_000 {
                        ch = '.';
                    } else if luma < 400_000 {
                        ch = ':';
                    } else if luma < 600_000 {
                        ch = 'o';
                    } else if luma < 800_000 {
                        ch = '0';
                    } else {
                        ch = '@';
                    }
                    let ghost g_prev = grid@;
                    grid.write(or + y, oc + x, Symbol {
                        character: ch,
                        color: p,
                        bold: false,
                        italic: false,
                    });
                    proof {
                        assert(grid@[or + y as int][oc + x as int] == pixel_symbol(
                            img@[(y as int) * (w as int) + (x as int)],
                        ));
                        assert forall|r: int, c: int|
                            0 <= r < old(grid).rows && 0 <= c < old(grid).cols implies #[trigger] grid@[r][c] == (
                        if img_covers(*self, w as int, h as int, r, c) && (r - or < y || (r - or == y
                            && c - oc < x + 1)) {
                            pixel_symbol(img@[(r - or) * w + (c - oc)])
                        } else {
                            old(grid)@[r][c]
                        }) by {
                            if !(r == or + y && c == oc + x) {
                                assert(grid@[r][c] == g_prev[r][c]);
                            }
                        }
                    }
                }
                x += 1;
            }
            y += 1;
        }
    }
}

} // verus!
