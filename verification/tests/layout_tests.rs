use pagegrid::grid::{Color, Grid, CHANNEL_SCALE};
use pagegrid::layout::LayoutContext;

fn fg() -> Color {
    Color { r: CHANNEL_SCALE, g: CHANNEL_SCALE, b: CHANNEL_SCALE }
}

fn h1() -> Color {
    Color { r: CHANNEL_SCALE, g: 0, b: 0 }
}

fn h2() -> Color {
    Color { r: 0, g: CHANNEL_SCALE, b: 0 }
}

fn h3() -> Color {
    Color { r: 0, g: 0, b: CHANNEL_SCALE }
}

fn h4() -> Color {
    Color { r: CHANNEL_SCALE, g: CHANNEL_SCALE, b: 0 }
}

/// A grid of `rows` x `cols` with a root view spanning all of it.
fn setup(rows: usize, cols: usize) -> (Grid, LayoutContext) {
    let grid = Grid::new(rows, cols, fg());
    let ctx = LayoutContext::new(
        (cols, rows),
        (0, 0),
        (cols, rows),
        fg(),
        h1(),
        h2(),
        h3(),
        h4(),
    );
    (grid, ctx)
}

#[test]
fn grid_starts_blank() {
    let (grid, _) = setup(3, 4);
    for r in 0..3 {
        for c in 0..4 {
            let s = grid.get(r, c);
            assert_eq!(s.character, ' ');
            assert_eq!(s.color, fg());
            assert!(!s.bold);
            assert!(!s.italic);
        }
    }
}

#[test]
fn view_size_reports_extent() {
    let (_, ctx) = setup(5, 10);
    assert_eq!(ctx.view_size(), (10, 5));
}

#[test]
fn frame_draws_border_and_pads_inward() {
    // A 10x5 view: border on the edges, inner view at (1,1) with extent (8,3).
    let (mut grid, ctx) = setup(5, 10);
    let inner = ctx.frame(&mut grid);
    let inner = inner.expect("frame on a large enough view yields an interior");
    assert_eq!(inner.glimpse_origin, (1, 1));
    assert_eq!(inner.glimpse_size, (8, 3));

    assert_eq!(grid.get(0, 0).character, '+');
    assert_eq!(grid.get(0, 9).character, '+');
    assert_eq!(grid.get(4, 0).character, '+');
    assert_eq!(grid.get(4, 9).character, '+');
    for c in 1..9 {
        assert_eq!(grid.get(0, c).character, '-');
        assert_eq!(grid.get(4, c).character, '-');
    }
    for r in 1..4 {
        assert_eq!(grid.get(r, 0).character, '|');
        assert_eq!(grid.get(r, 9).character, '|');
    }
    // The interior is untouched, and the border carries the foreground color.
    assert_eq!(grid.get(2, 3).character, ' ');
    assert_eq!(grid.get(0, 0).color, fg());
}

#[test]
fn frame_on_narrow_view_is_noop() {
    // A 1x5 view (one column) cannot hold a border: nothing drawn, no inner.
    let (mut grid, _) = setup(5, 10);
    let narrow = LayoutContext::new(
        (10, 5),
        (0, 0),
        (1, 5),
        fg(),
        h1(),
        h2(),
        h3(),
        h4(),
    );
    let inner = narrow.frame(&mut grid);
    assert!(inner.is_none());
    for r in 0..5 {
        for c in 0..10 {
            assert_eq!(grid.get(r, c).character, ' ');
        }
    }
}

#[test]
fn vsplit_in_range() {
    // Height 5, split at 2: divider on local row 2, up gets rows [0,2),
    // down gets rows (2,5), i.e. 2 rows starting at row 3.
    let (mut grid, ctx) = setup(5, 8);
    let (up, down) = ctx.vsplit(&mut grid, 2);
    let up = up.expect("rows before the divider");
    let down = down.expect("rows after the divider");
    assert_eq!(up.glimpse_origin, (0, 0));
    assert_eq!(up.glimpse_size, (8, 2));
    assert_eq!(down.glimpse_origin, (0, 3));
    assert_eq!(down.glimpse_size, (8, 2));
    for c in 0..8 {
        assert_eq!(grid.get(2, c).character, '-');
    }
    assert_eq!(grid.get(1, 0).character, ' ');
    assert_eq!(grid.get(3, 0).character, ' ');
}

#[test]
fn vsplit_negative_counts_from_bottom() {
    // Height 5, split -1: divider lands on local row 4, the last row; up
    // gets rows [0,4) and there is no row after the divider.
    let (mut grid, ctx) = setup(5, 8);
    let (up, down) = ctx.vsplit(&mut grid, -1);
    let up = up.expect("rows before the divider");
    assert!(down.is_none());
    assert_eq!(up.glimpse_origin, (0, 0));
    assert_eq!(up.glimpse_size, (8, 4));
    for c in 0..8 {
        assert_eq!(grid.get(4, c).character, '-');
    }
}

#[test]
fn vsplit_out_of_range_passes_whole_view() {
    let (mut grid, ctx) = setup(5, 8);
    let (up, down) = ctx.vsplit(&mut grid, 7);
    assert!(down.is_none());
    assert_eq!(up.expect("whole view").glimpse_size, (8, 5));

    let (up2, down2) = ctx.vsplit(&mut grid, -9);
    assert!(up2.is_none());
    assert_eq!(down2.expect("whole view").glimpse_size, (8, 5));
    // Nothing was drawn in either case.
    for r in 0..5 {
        for c in 0..8 {
            assert_eq!(grid.get(r, c).character, ' ');
        }
    }
}

#[test]
fn hsplit_in_range() {
    // Width 8, split at 2: divider on local column 2, left gets columns
    // [0,2), right gets columns (2,8).
    let (mut grid, ctx) = setup(5, 8);
    let (left, right) = ctx.hsplit(&mut grid, 2);
    let left = left.expect("columns before the divider");
    let right = right.expect("columns after the divider");
    assert_eq!(left.glimpse_origin, (0, 0));
    assert_eq!(left.glimpse_size, (2, 5));
    assert_eq!(right.glimpse_origin, (3, 0));
    assert_eq!(right.glimpse_size, (5, 5));
    for r in 0..5 {
        assert_eq!(grid.get(r, 2).character, '|');
    }
}

#[test]
fn hsplit_negative_counts_from_right() {
    let (mut grid, ctx) = setup(5, 8);
    let (left, right) = ctx.hsplit(&mut grid, -1);
    let left = left.expect("columns before the divider");
    assert!(right.is_none());
    assert_eq!(left.glimpse_size, (7, 5));
    for r in 0..5 {
        assert_eq!(grid.get(r, 7).character, '|');
    }
}

#[test]
fn padding_no_op_when_too_small() {
    // A 2x2 view with padding(1,1,0,0): 2 < 1+1+1, so no interior remains.
    let small = LayoutContext::new(
        (10, 5),
        (0, 0),
        (2, 2),
        fg(),
        h1(),
        h2(),
        h3(),
        h4(),
    );
    assert!(small.padding(1, 1, 0, 0).is_none());
}

#[test]
fn padding_shifts_origin_and_shrinks_extent() {
    // A 3x1 view with padding(1,1,0,0): interior of extent (1,1) at (1,0).
    let v = LayoutContext::new(
        (10, 5),
        (0, 0),
        (3, 1),
        fg(),
        h1(),
        h2(),
        h3(),
        h4(),
    );
    let inner = v.padding(1, 1, 0, 0).expect("one column remains");
    assert_eq!(inner.glimpse_origin, (1, 0));
    assert_eq!(inner.glimpse_size, (1, 1));
}

#[test]
fn text_writes_rows_and_shrinks_view() {
    // "ab\ncd" on a 4-column view: a,b on row 0, c,d on row 1, and the
    // view's row extent shrinks by 2.
    let (mut grid, mut ctx) = setup(5, 4);
    ctx.text(&mut grid, "ab\ncd");
    assert_eq!(grid.get(0, 0).character, 'a');
    assert_eq!(grid.get(0, 1).character, 'b');
    assert_eq!(grid.get(0, 2).character, ' ');
    assert_eq!(grid.get(1, 0).character, 'c');
    assert_eq!(grid.get(1, 1).character, 'd');
    assert_eq!(ctx.glimpse_origin, (0, 2));
    assert_eq!(ctx.glimpse_size, (4, 3));
    // Plain text carries the foreground style.
    let s = grid.get(0, 0);
    assert_eq!(s.color, fg());
    assert!(!s.bold);
    assert!(!s.italic);
}

#[test]
fn text_wraps_at_character_level_and_reclaims_row() {
    // "abcd" on a 2-column view wraps twice and ends exactly at a wrap
    // boundary: the spurious blank row is reclaimed, 2 rows consumed.
    let (mut grid, _) = setup(5, 6);
    let mut v = LayoutContext::new(
        (6, 5),
        (0, 0),
        (2, 5),
        fg(),
        h1(),
        h2(),
        h3(),
        h4(),
    );
    v.text(&mut grid, "abcd");
    assert_eq!(grid.get(0, 0).character, 'a');
    assert_eq!(grid.get(0, 1).character, 'b');
    assert_eq!(grid.get(1, 0).character, 'c');
    assert_eq!(grid.get(1, 1).character, 'd');
    assert_eq!(v.glimpse_origin, (0, 2));
    assert_eq!(v.glimpse_size, (2, 3));
}

#[test]
fn text_empty_consumes_one_row() {
    let (mut grid, mut ctx) = setup(5, 4);
    ctx.text(&mut grid, "");
    assert_eq!(ctx.glimpse_origin, (0, 1));
    assert_eq!(ctx.glimpse_size, (4, 4));
    assert_eq!(grid.get(0, 0).character, ' ');
}

#[test]
fn text_overconsumption_clamps_extent_at_zero() {
    // Trailing newlines can consume more rows than the view holds: the
    // origin still advances by the consumed rows and the extent clamps at
    // zero rather than going negative.
    let (mut grid, _) = setup(5, 4);
    let mut v = LayoutContext::new(
        (4, 5),
        (0, 0),
        (4, 2),
        fg(),
        h1(),
        h2(),
        h3(),
        h4(),
    );
    v.text(&mut grid, "a\n\n\n");
    assert_eq!(grid.get(0, 0).character, 'a');
    assert_eq!(v.glimpse_origin, (0, 3));
    assert_eq!(v.glimpse_size, (4, 0));
}

#[test]
fn ftext_highlight_then_reset() {
    // "<h1>A<fg>B": A in highlight-1, B back in the ambient foreground,
    // both on row 0; the six tag characters are consumed, not rendered.
    let (mut grid, mut ctx) = setup(5, 10);
    ctx.ftext(&mut grid, "<h1>A<fg>B");
    let a = grid.get(0, 0);
    let b = grid.get(0, 1);
    assert_eq!(a.character, 'A');
    assert_eq!(a.color, h1());
    assert_eq!(b.character, 'B');
    assert_eq!(b.color, fg());
    assert_eq!(grid.get(0, 2).character, ' ');
    assert_eq!(ctx.glimpse_origin, (0, 1));
    assert_eq!(ctx.glimpse_size, (10, 4));
}

#[test]
fn ftext_unrecognized_tag_renders_literally() {
    // "<xy>": the window is no known tag, so `<` renders as a glyph and
    // x, y, > follow as ordinary text.
    let (mut grid, mut ctx) = setup(5, 10);
    ctx.ftext(&mut grid, "<xy>");
    assert_eq!(grid.get(0, 0).character, '<');
    assert_eq!(grid.get(0, 1).character, 'x');
    assert_eq!(grid.get(0, 2).character, 'y');
    assert_eq!(grid.get(0, 3).character, '>');
    assert_eq!(grid.get(0, 4).character, ' ');
}

#[test]
fn ftext_truncated_tag_renders_literally() {
    // Fewer than four characters remain at the `<`: it renders literally.
    let (mut grid, mut ctx) = setup(5, 10);
    ctx.ftext(&mut grid, "<fg");
    assert_eq!(grid.get(0, 0).character, '<');
    assert_eq!(grid.get(0, 1).character, 'f');
    assert_eq!(grid.get(0, 2).character, 'g');
}

#[test]
fn ftext_tag_at_end_of_input_is_recognized() {
    // Exactly four characters remain: "<h2>" is a complete tag and renders
    // nothing.
    let (mut grid, mut ctx) = setup(5, 10);
    ctx.ftext(&mut grid, "<h2>");
    for c in 0..10 {
        assert_eq!(grid.get(0, c).character, ' ');
    }
    assert_eq!(ctx.glimpse_origin, (0, 1));
}

#[test]
fn ftext_bold_and_italic_accumulate() {
    let (mut grid, mut ctx) = setup(5, 10);
    ctx.ftext(&mut grid, "<bo>X<it>Y");
    let x = grid.get(0, 0);
    let y = grid.get(0, 1);
    assert!(x.bold);
    assert!(!x.italic);
    assert_eq!(x.color, fg());
    assert!(y.bold);
    assert!(y.italic);
}

#[test]
fn ftext_wraps_like_text() {
    let (mut grid, _) = setup(5, 6);
    let mut v = LayoutContext::new(
        (6, 5),
        (0, 0),
        (2, 5),
        fg(),
        h1(),
        h2(),
        h3(),
        h4(),
    );
    v.ftext(&mut grid, "<h3>abc");
    assert_eq!(grid.get(0, 0).character, 'a');
    assert_eq!(grid.get(0, 1).character, 'b');
    assert_eq!(grid.get(1, 0).character, 'c');
    assert_eq!(grid.get(0, 0).color, h3());
    assert_eq!(v.glimpse_origin, (0, 2));
    assert_eq!(v.glimpse_size, (2, 3));
}

#[test]
fn img_brightness_bands_are_inclusive_below() {
    // Five gray pixels across the band boundaries; a channel value of v
    // gives luma v/1000 of full scale, so 200 is exactly 0.2 and must map
    // to ':' and not '.'.
    let (mut grid, ctx) = setup(5, 10);
    let gray = |v: u16| Color { r: v, g: v, b: v };
    let pixels = vec![gray(199), gray(200), gray(400), gray(600), gray(800)];
    ctx.img(&mut grid, &pixels, 5, 1);
    assert_eq!(grid.get(0, 0).character, '.');
    assert_eq!(grid.get(0, 1).character, ':');
    assert_eq!(grid.get(0, 2).character, 'o');
    assert_eq!(grid.get(0, 3).character, '0');
    assert_eq!(grid.get(0, 4).character, '@');
    // The pixel's own color is copied into the cell.
    assert_eq!(grid.get(0, 1).color, gray(200));
    assert!(!grid.get(0, 1).bold);
}

#[test]
fn img_drops_pixels_beyond_view() {
    // A 3x2 image on a 2x1 view: only the top-left 2x1 pixels land.
    let (mut grid, _) = setup(5, 10);
    let v = LayoutContext::new(
        (10, 5),
        (0, 0),
        (2, 1),
        fg(),
        h1(),
        h2(),
        h3(),
        h4(),
    );
    let p = |r: u16| Color { r, g: 0, b: 0 };
    let pixels = vec![p(1), p(2), p(3), p(4), p(5), p(6)];
    v.img(&mut grid, &pixels, 3, 2);
    assert_eq!(grid.get(0, 0).color, p(1));
    assert_eq!(grid.get(0, 1).color, p(2));
    assert_eq!(grid.get(0, 2).character, ' ');
    assert_eq!(grid.get(1, 0).character, ' ');
}

#[test]
fn nested_pass_stays_in_bounds() {
    // A whole pass over one grid: frame, then a split, then writers in both
    // halves; every derived view stays inside the grid and the pass ends
    // without any out-of-bounds write.
    let (mut grid, ctx) = setup(8, 12);
    let inner = ctx.frame(&mut grid).expect("interior");
    let (up, down) = inner.vsplit(&mut grid, 1);
    let mut up = up.expect("title row");
    let mut down = down.expect("body rows");
    up.ftext(&mut grid, "<h1><bo>Title");
    down.text(&mut grid, "body text");
    assert_eq!(grid.get(1, 1).character, 'T');
    assert!(grid.get(1, 1).bold);
    assert_eq!(grid.get(1, 1).color, h1());
    assert_eq!(grid.get(2, 1).character, '-');
    assert_eq!(grid.get(3, 1).character, 'b');
    assert_eq!(grid.get(0, 0).character, '+');
}
