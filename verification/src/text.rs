//! The content writers: plain text and markup-styled text.
//!
//! Both walk the input one character at a time, wrapping at the raw
//! character level whenever the write column reaches the region's width,
//! and afterwards shrink the region by the rows they consumed so that later
//! writes compose below. Their effect on the grid is pinned down by the
//! spec-level runs [`text_run`] and [`ftext_run`], which replay the same
//! character walk over the grid's mathematical view.

use vstd::prelude::*;
use vstd::string::StrSliceExecFns;
use crate::grid::{Color, Grid, Symbol};
use crate::layout::{styled, LayoutContext};

verus! {

/// One wrap check: a column at or past `cols` folds to column 0 of the next
/// row.
pub open spec fn wrap_pos(x: int, y: int, cols: int) -> (int, int) {
    if x >= cols {
        (0, y + 1)
    } else {
        (x, y)
    }
}

/// The grid view with one cell overwritten; positions outside the grid leave
/// it unchanged (the runs below only ever write in bounds when their
/// in-bounds flag holds).
pub open spec fn grid_write(g: Seq<Seq<Symbol>>, r: int, c: int, sym: Symbol) -> Seq<Seq<Symbol>> {
    if 0 <= r < g.len() && 0 <= c < g[r].len() {
        g.update(r, g[r].update(c, sym))
    } else {
        g
    }
}

/// How many rows a writer consumes when it stops at column `x`, row `y`:
/// one more than the final row, except that input ending exactly at a wrap
/// boundary does not leave a spurious blank consumed row.
pub open spec fn consumed_rows(x: int, y: int) -> int {
    if x == 0 && y > 0 {
        y
    } else {
        y + 1
    }
}

/// The view left for later writers: origin advanced and extent reduced by
/// the consumed rows.
pub open spec fn shrunk_view(v: LayoutContext, consumed: int) -> LayoutContext {
    LayoutContext {
        glimpse_origin: (v.glimpse_origin.0, (v.glimpse_origin.1 + consumed) as usize),
        glimpse_size: (
            v.glimpse_size.0,
            if consumed <= v.glimpse_size.1 {
                (v.glimpse_size.1 - consumed) as usize
            } else {
                0
            },
        ),
        ..v
    }
}

/// A writer that consumes no more rows than the region holds leaves a view
/// that still lies inside every grid the parent lies inside: sequential
/// writes in one region never escape the grid.
pub proof fn lemma_shrunk_view_in_bounds(v: LayoutContext, rows: int, cols: int, consumed: int)
    requires
        v.in_bounds(rows, cols),
        0 <= consumed <= v.glimpse_size.1,
    ensures
        shrunk_view(v, consumed).in_bounds(rows, cols),
{
}

/// Replays `text` from position `i` with the cursor at local `(x, y)`:
/// `\n` moves to the start of the next row, every other character is written
/// at the cursor in the ambient foreground style and advances it, and the
/// cursor wraps whenever the column reaches the region's width. Yields the
/// final cursor, the resulting grid view, and whether every step stayed
/// inside the region's extent.
pub open spec fn text_run(
    g: Seq<Seq<Symbol>>,
    v: LayoutContext,
    s: Seq<char>,
    i: int,
    x: int,
    y: int,
) -> (int, int, Seq<Seq<Symbol>>, bool)
    decreases s.len() - i,
{
    let w = v.glimpse_size.0 as int;
    let h = v.glimpse_size.1 as int;
    if i < 0 || i >= s.len() {
        (x, y, g, true)
    } else if s[i] == '\n' {
        let xy = wrap_pos(0, y + 1, w);
        text_run(g, v, s, i + 1, xy.0, xy.1)
    } else {
        let in_view = 0 <= x < w && 0 <= y < h;
        let g2 = grid_write(
            g,
            v.glimpse_origin.1 + y,
            v.glimpse_origin.0 + x,
            styled(s[i], v.fg_color, false, false),
        );
        let xy = wrap_pos(x + 1, y, w);
        let rest = text_run(g2, v, s, i + 1, xy.0, xy.1);
        (rest.0, rest.1, rest.2, in_view && rest.3)
    }
}

/// The cursor row never moves up: the row where a run ends is at least the
/// row where it starts.
pub proof fn lemma_text_run_row_monotone(
    g: Seq<Seq<Symbol>>,
    v: LayoutContext,
    s: Seq<char>,
    i: int,
    x: int,
    y: int,
)
    ensures
        text_run(g, v, s, i, x, y).1 >= y,
    decreases s.len() - i,
{
    let w = v.glimpse_size.0 as int;
    if i < 0 || i >= s.len() {
    } else if s[i] == '\n' {
        let xy = wrap_pos(0, y + 1, w);
        lemma_text_run_row_monotone(g, v, s, i + 1, xy.0, xy.1);
    } else {
        let g2 = grid_write(
            g,
            v.glimpse_origin.1 + y,
            v.glimpse_origin.0 + x,
            styled(s[i], v.fg_color, false, false),
        );
        let xy = wrap_pos(x + 1, y, w);
        lemma_text_run_row_monotone(g2, v, s, i + 1, xy.0, xy.1);
    }
}

/// The full run of `text` over `s` on view `v`, cursor starting at the
/// region's top-left corner.
pub open spec fn text_outcome(v: LayoutContext, g: Seq<Seq<Symbol>>, s: Seq<char>) -> (
    int,
    int,
    Seq<Seq<Symbol>>,
    bool,
) {
    text_run(g, v, s, 0, 0, 0)
}

/// The writer's input can be handled: every write lands within the region's
/// extent, and the origin row it leaves behind still fits the machine word.
pub open spec fn text_fits(v: LayoutContext, g: Seq<Seq<Symbol>>, s: Seq<char>) -> bool {
    &&& text_outcome(v, g, s).3
    &&& v.glimpse_origin.1 + consumed_rows(text_outcome(v, g, s).0, text_outcome(v, g, s).1)
        <= usize::MAX
}

impl LayoutContext {
    /// Writes `text` into this region, wrapping at the raw character level,
    /// then advances the region's origin past the consumed rows.
    pub fn text(&mut self, grid: &mut Grid, text: &str)
        requires
            old(self).wf(*old(grid)),
            text_fits(*old(self), old(grid)@, text@),
        ensures
            final(grid).wf(),
            final(grid).rows == old(grid).rows,
            final(grid).cols == old(grid).cols,
            final(grid)@ == text_outcome(*old(self), old(grid)@, text@).2,
            *final(self) == shrunk_view(
                *old(self),
                consumed_rows(
                    text_outcome(*old(self), old(grid)@, text@).0,
                    text_outcome(*old(self), old(grid)@, text@).1,
                ),
            ),
            consumed_rows(
                text_outcome(*old(self), old(grid)@, text@).0,
                text_outcome(*old(self), old(grid)@, text@).1,
            ) <= old(self).glimpse_size.1 ==> final(self).wf(*final(grid)),
    {
        let ghost v = *old(self);
        let ghost target = text_outcome(*old(self), old(grid)@, text@);
        let n = text.unicode_len();
        let w = self.glimpse_size.0;
        let h = self.glimpse_size.1;
        let oc = self.glimpse_origin.0;
        let or = self.glimpse_origin.1;
        let mut i: usize = 0;
        let mut x: usize = 0;
        let mut y: usize = 0;
        while i < n
            invariant
                *self == v,
                self.wf(*grid),
                self.glimpse_size.0 == w,
                self.glimpse_size.1 == h,
                self.glimpse_origin.0 == oc,
                self.glimpse_origin.1 == or,
                grid.rows == old(grid).rows,
                grid.cols == old(grid).cols,
                i <= n,
                n == text@.len(),
                x == 0 || x < w,
                text_run(grid@, v, text@, i as int, x as int, y as int) == target,
                target.3,
                v.glimpse_origin.1 + consumed_rows(target.0, target.1) <= usize::MAX,
            decreases n - i,
        {
            let c = text.get_char(i);
            let ghost g_pre = grid@;
            if c == '\n' {
                proof {
                    lemma_text_run_row_monotone(
                        grid@,
                        v,
                        text@,
                        i as int + 1,
                        wrap_pos(0, y as int + 1, w as int).0,
                        wrap_pos(0, y as int + 1, w as int).1,
                    );
                }
                x = 0;
                y = y + 1;
            } else {
                proof {
                    assert(text_run(g_pre, v, text@, i as int, x as int, y as int).3);
                    assert(x < w && y < h);
                }
                grid.write(or + y, oc + x, self.c(c));
                proof {
                    assert(grid@ =~~= grid_write(
                        g_pre,
                        or + y as int,
                        oc + x as int,
                        styled(text@[i as int], v.fg_color, false, false),
                    ));
                    lemma_text_run_row_monotone(
                        grid@,
                        v,
                        text@,
                        i as int + 1,
                        wrap_pos(x as int + 1, y as int, w as int).0,
                        wrap_pos(x as int + 1, y as int, w as int).1,
                    );
                }
                x = x + 1;
            }
            if x >= w {
                x = 0;
                y = y + 1;
            }
            i = i + 1;
        }
        let consumed: usize = if x == 0 && y > 0 {
            y
        } else {
            y + 1
        };
        self.glimpse_origin = (oc, or + consumed);
        self.glimpse_size = (w, if consumed <= h { h - consumed } else { 0 });
    }
}

/// A recognized four-character control tag starts at `i`: `<fg>`, `<h1>`
/// through `<h4>`, `<bo>` or `<it>`, with all four characters present.
pub open spec fn recognized_tag(s: Seq<char>, i: int) -> bool {
    &&& i + 4 <= s.len()
    &&& s[i] == '<'
    &&& s[i + 3] == '>'
    &&& ((s[i + 1] == 'f' && s[i + 2] == 'g') || (s[i + 1] == 'h' && s[i + 2] == '1') || (s[i + 1]
        == 'h' && s[i + 2] == '2') || (s[i + 1] == 'h' && s[i + 2] == '3') || (s[i + 1] == 'h' && s[i
        + 2] == '4') || (s[i + 1] == 'b' && s[i + 2] == 'o') || (s[i + 1] == 'i' && s[i + 2] == 't'))
}

/// The style state after the recognized tag at `i`: `<fg>` resets color and
/// both flags, a highlight tag switches the color only, `<bo>` and `<it>`
/// set their flag.
pub open spec fn tag_style(
    v: LayoutContext,
    s: Seq<char>,
    i: int,
    color: Color,
    bold: bool,
    italic: bool,
) -> (Color, bool, bool) {
    if s[i + 1] == 'f' && s[i + 2] == 'g' {
        (v.fg_color, false, false)
    } else if s[i + 1] == 'h' && s[i + 2] == '1' {
        (v.h1_color, bold, italic)
    } else if s[i + 1] == 'h' && s[i + 2] == '2' {
        (v.h2_color, bold, italic)
    } else if s[i + 1] == 'h' && s[i + 2] == '3' {
        (v.h3_color, bold, italic)
    } else if s[i + 1] == 'h' && s[i + 2] == '4' {
        (v.h4_color, bold, italic)
    } else if s[i + 1] == 'b' && s[i + 2] == 'o' {
        (color, true, italic)
    } else {
        (color, bold, true)
    }
}

/// Replays `ftext` from position `i`: like [`text_run`] but with a style
/// state. A recognized tag updates the state and consumes its four
/// characters without writing; any other character, a literal `<` of an
/// unrecognized or truncated tag included, is written in the current style.
pub open spec fn ftext_run(
    g: Seq<Seq<Symbol>>,
    v: LayoutContext,
    s: Seq<char>,
    i: int,
    x: int,
    y: int,
    color: Color,
    bold: bool,
    italic: bool,
) -> (int, int, Seq<Seq<Symbol>>, bool)
    decreases s.len() - i,
{
    let w = v.glimpse_size.0 as int;
    let h = v.glimpse_size.1 as int;
    if i < 0 || i >= s.len() {
        (x, y, g, true)
    } else if s[i] == '\n' {
        let xy = wrap_pos(0, y + 1, w);
        ftext_run(g, v, s, i + 1, xy.0, xy.1, color, bold, italic)
    } else if s[i] == '<' && recognized_tag(s, i) {
        let st = tag_style(v, s, i, color, bold, italic);
        let xy = wrap_pos(x, y, w);
        ftext_run(g, v, s, i + 4, xy.0, xy.1, st.0, st.1, st.2)
    } else {
        let in_view = 0 <= x < w && 0 <= y < h;
        let g2 = grid_write(
            g,
            v.glimpse_origin.1 + y,
            v.glimpse_origin.0 + x,
            styled(s[i], color, bold, italic),
        );
        let xy = wrap_pos(x + 1, y, w);
        let rest = ftext_run(g2, v, s, i + 1, xy.0, xy.1, color, bold, italic);
        (rest.0, rest.1, rest.2, in_view && rest.3)
    }
}

/// The cursor row never moves up during a markup run.
pub proof fn lemma_ftext_run_row_monotone(
    g: Seq<Seq<Symbol>>,
    v: LayoutContext,
    s: Seq<char>,
    i: int,
    x: int,
    y: int,
    color: Color,
    bold: bool,
    italic: bool,
)
    ensures
        ftext_run(g, v, s, i, x, y, color, bold, italic).1 >= y,
    decreases s.len() - i,
{
    let w = v.glimpse_size.0 as int;
    if i < 0 || i >= s.len() {
    } else if s[i] == '\n' {
        let xy = wrap_pos(0, y + 1, w);
        lemma_ftext_run_row_monotone(g, v, s, i + 1, xy.0, xy.1, color, bold, italic);
    } else if s[i] == '<' && recognized_tag(s, i) {
        let st = tag_style(v, s, i, color, bold, italic);
        let xy = wrap_pos(x, y, w);
        lemma_ftext_run_row_monotone(g, v, s, i + 4, xy.0, xy.1, st.0, st.1, st.2);
    } else {
        let g2 = grid_write(
            g,
            v.glimpse_origin.1 + y,
            v.glimpse_origin.0 + x,
            styled(s[i], color, bold, italic),
        );
        let xy = wrap_pos(x + 1, y, w);
        lemma_ftext_run_row_monotone(g2, v, s, i + 1, xy.0, xy.1, color, bold, italic);
    }
}

/// The full run of `ftext` over `s` on view `v`: cursor at the region's
/// top-left corner, style starting at the ambient foreground, neither bold
/// nor italic.
pub open spec fn ftext_outcome(v: LayoutContext, g: Seq<Seq<Symbol>>, s: Seq<char>) -> (
    int,
    int,
    Seq<Seq<Symbol>>,
    bool,
) {
    ftext_run(g, v, s, 0, 0, 0, v.fg_color, false, false)
}

/// The markup writer's input can be handled, as in [`text_fits`].
pub open spec fn ftext_fits(v: LayoutContext, g: Seq<Seq<Symbol>>, s: Seq<char>) -> bool {
    &&& ftext_outcome(v, g, s).3
    &&& v.glimpse_origin.1 + consumed_rows(ftext_outcome(v, g, s).0, ftext_outcome(v, g, s).1)
        <= usize::MAX
}

/// The characters of a string slice, in order.
fn chars_of(s: &str) -> (v: Vec<char>)
    ensures
        v@ == s@,
{
    let n = s.unicode_len();
    let mut v: Vec<char> = Vec::new();
    let mut i: usize = 0;
    while i < n
        invariant
            i <= n,
            n == s@.len(),
            v@ == s@.subrange(0, i as int),
        decreases n - i,
    {
        v.push(s.get_char(i));
        proof {
            assert(v@ =~= s@.subrange(0, i as int + 1));
        }
        i += 1;
    }
    proof {
        assert(v@ =~= s@);
    }
    v
}

impl LayoutContext {
    /// Writes `text` with inline markup: the tags `<fg>`, `<h1>`..`<h4>`,
    /// `<bo>` and `<it>` switch the style and are not rendered; an
    /// unrecognized or truncated tag renders its `<` literally and scanning
    /// resumes one character later. Wrapping and the final shrink of the
    /// region work exactly as in [`Self::text`]. The style state lasts for
    /// this one call only.
    pub fn ftext(&mut self, grid: &mut Grid, text: &str)
        requires
            old(self).wf(*old(grid)),
            ftext_fits(*old(self), old(grid)@, text@),
        ensures
            final(grid).wf(),
            final(grid).rows == old(grid).rows,
            final(grid).cols == old(grid).cols,
            final(grid)@ == ftext_outcome(*old(self), old(grid)@, text@).2,
            *final(self) == shrunk_view(
                *old(self),
                consumed_rows(
                    ftext_outcome(*old(self), old(grid)@, text@).0,
                    ftext_outcome(*old(self), old(grid)@, text@).1,
                ),
            ),
            consumed_rows(
                ftext_outcome(*old(self), old(grid)@, text@).0,
                ftext_outcome(*old(self), old(grid)@, text@).1,
            ) <= old(self).glimpse_size.1 ==> final(self).wf(*final(grid)),
    {
        let ghost v = *old(self);
        let ghost target = ftext_outcome(*old(self), old(grid)@, text@);
        let chars = chars_of(text);
        let n = chars.len();
        let w = self.glimpse_size.0;
        let h = self.glimpse_size.1;
        let oc = self.glimpse_origin.0;
        let or = self.glimpse_origin.1;
        let mut i: usize = 0;
        let mut x: usize = 0;
        let mut y: usize = 0;
        let mut color = self.fg_color;
        let mut bold = false;
        let mut italic = false;
        while i < n
            invariant
                *self == v,
                self.wf(*grid),
                self.glimpse_size.0 == w,
                self.glimpse_size.1 == h,
                self.glimpse_origin.0 == oc,
                self.glimpse_origin.1 == or,
                grid.rows == old(grid).rows,
                grid.cols == old(grid).cols,
                chars@ == text@,
                i <= n,
                n == text@.len(),
                x == 0 || x < w,
                ftext_run(grid@, v, text@, i as int, x as int, y as int, color, bold, italic)
                    == target,
                target.3,
                v.glimpse_origin.1 + consumed_rows(target.0, target.1) <= usize::MAX,
            decreases n - i,
        {
            let c = chars[i];
            let ghost g_pre = grid@;
            let mut advance: usize = 1;
            if c == '\n' {
                proof {
                    lemma_ftext_run_row_monotone(
                        grid@,
                        v,
                        text@,
                        i as int + 1,
                        wrap_pos(0, y as int + 1, w as int).0,
                        wrap_pos(0, y as int + 1, w as int).1,
                        color,
                        bold,
                        italic,
                    );
                }
                x = 0;
                y = y + 1;
            } else {
                let mut tag = false;
                if c == '<' && n - i >= 4 {
                    let c1 = chars[i + 1];
                    let c2 = chars[i + 2];
                    let c3 = chars[i + 3];
                    if c3 == '>' {
                        if c1 == 'f' && c2 == 'g' {
                            color = self.fg_color;
                            bold = false;
                            italic = false;
                            tag = true;
                        } else if c1 == 'h' && c2 == '1' {
                            color = self.h1_color;
                            tag = true;
                        } else if c1 == 'h' && c2 == '2' {
                            color = self.h2_color;
                            tag = true;
                        } else if c1 == 'h' && c2 == '3' {
                            color = self.h3_color;
                            tag = true;
                        } else if c1 == 'h' && c2 == '4' {
                            color = self.h4_color;
                            tag = true;
                        } else if c1 == 'b' && c2 == 'o' {
                            bold = true;
                            tag = true;
                        } else if c1 == 'i' && c2 == 't' {
                            italic = true;
                            tag = true;
                        }
                    }
                }
                if tag {
                    advance = 4;
                    proof {
                        lemma_ftext_run_row_monotone(
                            grid@,
                            v,
                            text@,
                            i as int + 4,
                            wrap_pos(x as int, y as int, w as int).0,
                            wrap_pos(x as int, y as int, w as int).1,
                            color,
                            bold,
                            italic,
                        );
                    }
                } else {
                    proof {
                        assert(ftext_run(
                            g_pre,
                            v,
                            text@,
                            i as int,
                            x as int,
                            y as int,
                            color,
                            bold,
                            italic,
                        ).3);
                        assert(x < w && y < h);
                    }
                    grid.write(or + y, oc + x, Symbol { character: c, color, bold, italic });
                    proof {
                        assert(grid@ =~~= grid_write(
                            g_pre,
                            or + y as int,
                            oc + x as int,
                            styled(text@[i as int], color, bold, italic),
                        ));
                        lemma_ftext_run_row_monotone(
                            grid@,
                            v,
                            text@,
                            i as int + 1,
                            wrap_pos(x as int + 1, y as int, w as int).0,
                            wrap_pos(x as int + 1, y as int, w as int).1,
                            color,
                            bold,
                            italic,
                        );
                    }
                    x = x + 1;
                }
            }
            if x >= w {
                x = 0;
                y = y + 1;
            }
            i = i + advance;
        }
        let consumed: usize = if x == 0 && y > 0 {
            y
        } else {
            y + 1
        };
        self.glimpse_origin = (oc, or + consumed);
        self.glimpse_size = (w, if consumed <= h { h - consumed } else { 0 });
    }
}

} // verus!
