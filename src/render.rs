//! Rasterization of figures into a character grid and a color grid.
use vstd::prelude::*;
use crate::atoms::{Color, EntityID, Figure, Position, Sprite};
use crate::entities::Entity;

verus! {

/// The character grid and the parallel color grid.
pub type Canvas = (Seq<Seq<char>>, Seq<Seq<Color>>);

/// The grids as sequences.
pub open spec fn grid_view<T>(rows: Seq<Vec<T>>) -> Seq<Seq<T>> {
    Seq::new(rows.len(), |i: int| rows[i]@)
}

/// Whether `rows` has `h` rows of `w` cells.
pub open spec fn has_shape<T>(rows: Seq<Seq<T>>, w: int, h: int) -> bool {
    rows.len() == h && forall|i: int| 0 <= i < h ==> (#[trigger] rows[i]).len() == w
}

/// A `w` by `h` canvas of spaces drawn in white.
pub open spec fn blank_canvas(w: int, h: int) -> Canvas {
    (
        Seq::new(h as nat, |i: int| Seq::new(w as nat, |j: int| ' ')),
        Seq::new(h as nat, |i: int| Seq::new(w as nat, |j: int| Color::white_spec())),
    )
}

/// `c` with character `ch` in `color` at column `x`, row `y`, when that cell
/// lies in the `w` by `h` grid and `ch` is not a space (spaces are
/// transparent).
pub open spec fn paint(c: Canvas, w: int, h: int, x: int, y: int, ch: char, color: Color) -> Canvas {
    if 0 <= x < w && 0 <= y < h && ch != ' ' {
        (c.0.update(y, c.0[y].update(x, ch)), c.1.update(y, c.1[y].update(x, color)))
    } else {
        c
    }
}

/// `c` with the text `text` painted from column `x` of row `y`; a line break
/// continues at column `x0` of the next row. Cells outside the grid are
/// dropped.
pub open spec fn draw_text(
    c: Canvas,
    w: int,
    h: int,
    text: Seq<char>,
    x0: int,
    x: int,
    y: int,
    color: Color,
) -> Canvas
    decreases text.len(),
{
    if text.len() == 0 {
        c
    } else if text[0] == '\n' {
        draw_text(c, w, h, text.drop_first(), x0, x0, y + 1, color)
    } else {
        draw_text(paint(c, w, h, x, y, text[0], color), w, h, text.drop_first(), x0, x + 1, y, color)
    }
}

/// `c` with sprite `s` of `fig` drawn, seen from a view at `view`; an
/// inactive sprite draws nothing.
pub open spec fn draw_sprite(c: Canvas, w: int, h: int, fig: Figure, s: Sprite, view: Position) -> Canvas {
    if s.active {
        let x = fig.position.x + s.offset.x - view.x;
        let y = fig.position.y + s.offset.y - view.y;
        draw_text(c, w, h, s.content@, x, x, y, s.color)
    } else {
        c
    }
}

/// `c` with `sprites` of `fig` drawn in order.
pub open spec fn draw_sprites(
    c: Canvas,
    w: int,
    h: int,
    fig: Figure,
    sprites: Seq<Sprite>,
    view: Position,
) -> Canvas
    decreases sprites.len(),
{
    if sprites.len() == 0 {
        c
    } else {
        draw_sprites(draw_sprite(c, w, h, fig, sprites[0], view), w, h, fig, sprites.drop_first(), view)
    }
}

/// `c` with `fig` drawn, unless it is hidden.
pub open spec fn draw_figure(c: Canvas, w: int, h: int, fig: Figure, view: Position) -> Canvas {
    if fig.visible {
        draw_sprites(c, w, h, fig, fig.sprites@, view)
    } else {
        c
    }
}

/// `c` with the figures of the entities listed in `ids` drawn in order, so
/// that later ones cover earlier ones.
pub open spec fn draw_entities(
    c: Canvas,
    w: int,
    h: int,
    entities: Seq<Entity>,
    ids: Seq<EntityID>,
    view: Position,
) -> Canvas
    decreases ids.len(),
{
    if ids.len() == 0 {
        c
    } else {
        draw_entities(
            draw_figure(c, w, h, entities[ids[0] as int].figure(), view),
            w,
            h,
            entities,
            ids.drop_first(),
            view,
        )
    }
}

/// Whether every character of `text`, drawn from column `x` with line
/// breaks returning to column `x0`, lands left of column zero.
pub open spec fn lands_left(text: Seq<char>, x0: int, x: int) -> bool
    decreases text.len(),
{
    if text.len() == 0 {
        true
    } else if text[0] == '\n' {
        lands_left(text.drop_first(), x0, x0)
    } else {
        x < 0 && lands_left(text.drop_first(), x0, x + 1)
    }
}

/// Whether every character of `text`, drawn from row `y`, lands above row
/// zero.
pub open spec fn lands_above(text: Seq<char>, y: int) -> bool
    decreases text.len(),
{
    if text.len() == 0 {
        true
    } else if text[0] == '\n' {
        lands_above(text.drop_first(), y + 1)
    } else {
        y < 0 && lands_above(text.drop_first(), y)
    }
}

/// Text placed wholly off the negative side of the view, left of its first
/// column or above its first row, paints nothing.
pub proof fn lemma_draw_off_negative_side(
    c: Canvas,
    w: int,
    h: int,
    text: Seq<char>,
    x0: int,
    x: int,
    y: int,
    color: Color,
)
    requires
        lands_left(text, x0, x) || lands_above(text, y),
    ensures
        draw_text(c, w, h, text, x0, x, y, color) == c,
    decreases text.len(),
{
    if text.len() > 0 {
        if text[0] == '\n' {
            lemma_draw_off_negative_side(c, w, h, text.drop_first(), x0, x0, y + 1, color);
        } else {
            lemma_draw_off_negative_side(c, w, h, text.drop_first(), x0, x + 1, y, color);
        }
    }
}

/// A sprite whose characters all land left of the view or above it draws
/// exactly what it would draw switched off: nothing.
pub proof fn lemma_sprite_off_negative_side(
    c: Canvas,
    w: int,
    h: int,
    fig: Figure,
    s: Sprite,
    view: Position,
)
    requires
        ({
            let x = fig.position.x + s.offset.x - view.x;
            let y = fig.position.y + s.offset.y - view.y;
            lands_left(s.content@, x, x) || lands_above(s.content@, y)
        }),
    ensures
        draw_sprite(c, w, h, fig, s, view) == draw_sprite(c, w, h, fig, Sprite { active: false, ..s }, view),
        draw_sprite(c, w, h, fig, s, view) == c,
{
    let x = fig.position.x + s.offset.x - view.x;
    let y = fig.position.y + s.offset.y - view.y;
    lemma_draw_off_negative_side(c, w, h, s.content@, x, x, y, s.color);
}

/// A line of text drawn from column `x` of row `y` fills row `y` with its
/// characters from column `x` on, up to the grid's right edge; what lies
/// beyond that edge is dropped, not carried to another row, and spaces
/// leave the cells under them as they were.
pub proof fn lemma_draw_line_clipped(
    c: Canvas,
    w: int,
    h: int,
    text: Seq<char>,
    x0: int,
    x: int,
    y: int,
    color: Color,
)
    requires
        canvas_shaped(c, w, h),
        0 <= y < h,
        forall|i: int| 0 <= i < text.len() ==> text[i] != '\n',
    ensures
        ({
            let r = draw_text(c, w, h, text, x0, x, y, color);
            &&& canvas_shaped(r, w, h)
            &&& forall|row: int| 0 <= row < h && row != y ==> r.0[row] == c.0[row] && r.1[row] == c.1[row]
            &&& forall|col: int|
                0 <= col < w ==> r.0[y][col] == if x <= col < x + text.len() && text[col - x] != ' ' {
                    text[col - x]
                } else {
                    c.0[y][col]
                }
        }),
    decreases text.len(),
{
    lemma_draw_text_shape(c, w, h, text, x0, x, y, color);
    if text.len() > 0 {
        let rest = text.drop_first();
        let c1 = paint(c, w, h, x, y, text[0], color);
        lemma_paint_shape(c, w, h, x, y, text[0], color);
        assert forall|i: int| 0 <= i < rest.len() implies rest[i] != '\n' by {
            assert(rest[i] == text[i + 1]);
        }
        lemma_draw_line_clipped(c1, w, h, rest, x0, x + 1, y, color);
        let r = draw_text(c, w, h, text, x0, x, y, color);
        assert(r == draw_text(c1, w, h, rest, x0, x + 1, y, color));
        assert forall|col: int| 0 <= col < w implies r.0[y][col] == if x <= col < x + text.len()
            && text[col - x] != ' ' {
            text[col - x]
        } else {
            c.0[y][col]
        } by {
            if col > x && col < x + text.len() {
                assert(rest[col - (x + 1)] == text[col - x]);
            }
        }
    }
}

pub open spec fn canvas_of(symbols: &Vec<Vec<char>>, colors: &Vec<Vec<Color>>) -> Canvas {
    (grid_view(symbols@), grid_view(colors@))
}

/// Whether both grids have `h` rows of `w` cells.
pub open spec fn canvas_shaped(c: Canvas, w: int, h: int) -> bool {
    has_shape(c.0, w, h) && has_shape(c.1, w, h)
}

pub proof fn lemma_paint_shape(c: Canvas, w: int, h: int, x: int, y: int, ch: char, color: Color)
    requires
        canvas_shaped(c, w, h),
    ensures
        canvas_shaped(paint(c, w, h, x, y, ch, color), w, h),
{
    let p = paint(c, w, h, x, y, ch, color);
    if 0 <= x < w && 0 <= y < h && ch != ' ' {
        assert forall|i: int| 0 <= i < h implies (#[trigger] p.0[i]).len() == w by {
            assert(c.0[i].len() == w);
        }
        assert forall|i: int| 0 <= i < h implies (#[trigger] p.1[i]).len() == w by {
            assert(c.1[i].len() == w);
        }
    }
}

pub proof fn lemma_draw_text_shape(
    c: Canvas,
    w: int,
    h: int,
    text: Seq<char>,
    x0: int,
    x: int,
    y: int,
    color: Color,
)
    requires
        canvas_shaped(c, w, h),
    ensures
        canvas_shaped(draw_text(c, w, h, text, x0, x, y, color), w, h),
    decreases text.len(),
{
    if text.len() > 0 {
        if text[0] == '\n' {
            lemma_draw_text_shape(c, w, h, text.drop_first(), x0, x0, y + 1, color);
        } else {
            lemma_paint_shape(c, w, h, x, y, text[0], color);
            lemma_draw_text_shape(
                paint(c, w, h, x, y, text[0], color),
                w,
                h,
                text.drop_first(),
                x0,
                x + 1,
                y,
                color,
            );
        }
    }
}

/// Paints one cell of both grids.
fn paint_cell(
    symbols: &mut Vec<Vec<char>>,
    colors: &mut Vec<Vec<Color>>,
    w: i32,
    h: i32,
    x: i64,
    y: i64,
    ch: char,
    color: Color,
)
    requires
        canvas_shaped(canvas_of(old(symbols), old(colors)), w as int, h as int),
    ensures
        canvas_of(final(symbols), final(colors)) == paint(
            canvas_of(old(symbols), old(colors)),
            w as int,
            h as int,
            x as int,
            y as int,
            ch,
            color,
        ),
        final(symbols)@.len() == old(symbols)@.len(),
        final(colors)@.len() == old(colors)@.len(),
{
    let ghost c = canvas_of(symbols, colors);
    if 0 <= x && x < w as i64 && 0 <= y && y < h as i64 && ch != ' ' {
        let row = y as usize;
        let col = x as usize;
        assert(c.0[row as int].len() == w);
        assert(c.1[row as int].len() == w);
        symbols[row][col] = ch;
        colors[row][col] = color;
        assert(canvas_of(symbols, colors).0 =~= c.0.update(y as int, c.0[y as int].update(x as int, ch)));
        assert(canvas_of(symbols, colors).1 =~= c.1.update(
            y as int,
            c.1[y as int].update(x as int, color),
        ));
    }
}

/// Paints `text` from column `x0` of row `y0`, each line break going back to
/// column `x0` one row down.
fn draw_text_into(
    symbols: &mut Vec<Vec<char>>,
    colors: &mut Vec<Vec<Color>>,
    w: i32,
    h: i32,
    text: &Vec<char>,
    x0: i64,
    y0: i64,
    color: Color,
)
    requires
        0 <= w,
        0 <= h,
        canvas_shaped(canvas_of(old(symbols), old(colors)), w as int, h as int),
        -0x4_0000_0000 <= x0 <= 0x4_0000_0000,
        -0x4_0000_0000 <= y0 <= 0x4_0000_0000,
    ensures
        canvas_of(final(symbols), final(colors)) == draw_text(
            canvas_of(old(symbols), old(colors)),
            w as int,
            h as int,
            text@,
            x0 as int,
            x0 as int,
            y0 as int,
            color,
        ),
        canvas_shaped(canvas_of(final(symbols), final(colors)), w as int, h as int),
{
    let ghost c0 = canvas_of(symbols, colors);
    let ghost target = draw_text(c0, w as int, h as int, text@, x0 as int, x0 as int, y0 as int, color);
    let ghost mut gx: int = x0 as int;
    let ghost mut gy: int = y0 as int;
    // Past the grid's right or bottom edge nothing is painted, so the
    // running column and row stop counting there.
    let mut cx: i64 = if x0 < w as i64 {
        x0
    } else {
        w as i64
    };
    let mut cy: i64 = if y0 < h as i64 {
        y0
    } else {
        h as i64
    };
    let n = text.len();
    assert(text@.skip(0) =~= text@);
    let mut i: usize = 0;
    while i < n
        invariant
            n == text@.len(),
            i <= n,
            0 <= w,
            0 <= h,
            -0x4_0000_0000 <= x0 <= 0x4_0000_0000,
            canvas_shaped(canvas_of(symbols, colors), w as int, h as int),
            target == draw_text(
                canvas_of(symbols, colors),
                w as int,
                h as int,
                text@.skip(i as int),
                x0 as int,
                gx,
                gy,
                color,
            ),
            cx == if gx < w { gx } else { w as int },
            cy == if gy < h { gy } else { h as int },
            -0x4_0000_0000 <= cx <= w,
            -0x4_0000_0000 <= cy <= h,
        decreases n - i,
    {
        proof {
            assert(text@.skip(i as int).drop_first() =~= text@.skip(i as int + 1));
            assert(text@.skip(i as int)[0] == text@[i as int]);
        }
        let ch = text[i];
        if ch == '\n' {
            proof {
                gx = x0 as int;
                gy = gy + 1;
            }
            cx = if x0 < w as i64 {
                x0
            } else {
                w as i64
            };
            if cy < h as i64 {
                cy = cy + 1;
            }
        } else {
            let ghost before = canvas_of(symbols, colors);
            paint_cell(symbols, colors, w, h, cx, cy, ch, color);
            proof {
                assert(paint(before, w as int, h as int, cx as int, cy as int, ch, color) == paint(
                    before,
                    w as int,
                    h as int,
                    gx,
                    gy,
                    ch,
                    color,
                ));
                lemma_paint_shape(before, w as int, h as int, gx, gy, ch, color);
                gx = gx + 1;
            }
            if cx < w as i64 {
                cx = cx + 1;
            }
        }
        i += 1;
    }
    proof {
        assert(text@.skip(n as int) =~= Seq::<char>::empty());
    }
}

/// Paints sprite `s` of `fig` as seen from `view`.
fn draw_sprite_into(
    symbols: &mut Vec<Vec<char>>,
    colors: &mut Vec<Vec<Color>>,
    w: i32,
    h: i32,
    fig: &Figure,
    s: &Sprite,
    view: Position,
)
    requires
        0 <= w,
        0 <= h,
        canvas_shaped(canvas_of(old(symbols), old(colors)), w as int, h as int),
    ensures
        canvas_of(final(symbols), final(colors)) == draw_sprite(
            canvas_of(old(symbols), old(colors)),
            w as int,
            h as int,
            *fig,
            *s,
            view,
        ),
        canvas_shaped(canvas_of(final(symbols), final(colors)), w as int, h as int),
{
    if s.active {
        let x = (fig.position.x as i64) + (s.offset.x as i64) - (view.x as i64);
        let y = (fig.position.y as i64) + (s.offset.y as i64) - (view.y as i64);
        draw_text_into(symbols, colors, w, h, &s.content, x, y, s.color);
    }
}

/// Paints `fig` as seen from `view`, unless it is hidden.
fn draw_figure_into(
    symbols: &mut Vec<Vec<char>>,
    colors: &mut Vec<Vec<Color>>,
    w: i32,
    h: i32,
    fig: &Figure,
    view: Position,
)
    requires
        0 <= w,
        0 <= h,
        canvas_shaped(canvas_of(old(symbols), old(colors)), w as int, h as int),
    ensures
        canvas_of(final(symbols), final(colors)) == draw_figure(
            canvas_of(old(symbols), old(colors)),
            w as int,
            h as int,
            *fig,
            view,
        ),
        canvas_shaped(canvas_of(final(symbols), final(colors)), w as int, h as int),
{
    if !fig.visible {
        return;
    }
    let ghost target = draw_figure(canvas_of(symbols, colors), w as int, h as int, *fig, view);
    let n = fig.sprites.len();
    assert(fig.sprites@.skip(0) =~= fig.sprites@);
    let mut i: usize = 0;
    while i < n
        invariant
            n == fig.sprites@.len(),
            i <= n,
            0 <= w,
            0 <= h,
            canvas_shaped(canvas_of(symbols, colors), w as int, h as int),
            target == draw_sprites(
                canvas_of(symbols, colors),
                w as int,
                h as int,
                *fig,
                fig.sprites@.skip(i as int),
                view,
            ),
        decreases n - i,
    {
        proof {
            assert(fig.sprites@.skip(i as int).drop_first() =~= fig.sprites@.skip(i as int + 1));
            assert(fig.sprites@.skip(i as int)[0] == fig.sprites@[i as int]);
        }
        draw_sprite_into(symbols, colors, w, h, fig, &fig.sprites[i], view);
        i += 1;
    }
    proof {
        assert(fig.sprites@.skip(n as int) =~= Seq::<Sprite>::empty());
    }
}

/// Paints the figures of the entities listed in `ids`, in order.
pub fn draw_entities_into(
    symbols: &mut Vec<Vec<char>>,
    colors: &mut Vec<Vec<Color>>,
    w: i32,
    h: i32,
    entities: &Vec<Entity>,
    ids: &Vec<EntityID>,
    view: Position,
)
    requires
        0 <= w,
        0 <= h,
        canvas_shaped(canvas_of(old(symbols), old(colors)), w as int, h as int),
        forall|k: int| 0 <= k < ids@.len() ==> #[trigger] ids@[k] < entities@.len(),
    ensures
        canvas_of(final(symbols), final(colors)) == draw_entities(
            canvas_of(old(symbols), old(colors)),
            w as int,
            h as int,
            entities@,
            ids@,
            view,
        ),
        canvas_shaped(canvas_of(final(symbols), final(colors)), w as int, h as int),
{
    let ghost target = draw_entities(canvas_of(symbols, colors), w as int, h as int, entities@, ids@, view);
    let n = ids.len();
    assert(ids@.skip(0) =~= ids@);
    let mut i: usize = 0;
    while i < n
        invariant
            n == ids@.len(),
            i <= n,
            0 <= w,
            0 <= h,
            forall|k: int| 0 <= k < ids@.len() ==> #[trigger] ids@[k] < entities@.len(),
            canvas_shaped(canvas_of(symbols, colors), w as int, h as int),
            target == draw_entities(
                canvas_of(symbols, colors),
                w as int,
                h as int,
                entities@,
                ids@.skip(i as int),
                view,
            ),
        decreases n - i,
    {
        proof {
            assert(ids@.skip(i as int).drop_first() =~= ids@.skip(i as int + 1));
            assert(ids@.skip(i as int)[0] == ids@[i as int]);
        }
        let id = ids[i];
        draw_figure_into(symbols, colors, w, h, entities[id].get_figure(), view);
        i += 1;
    }
    proof {
        assert(ids@.skip(n as int) =~= Seq::<EntityID>::empty());
    }
}

} // verus!
